use std::str::FromStr;

use bcrypt_small::{ParseError, WorkFactor, FORMATTED_HASH_SIZE};

const KNOWN: &str = "$2b$04$cVWp4XaNU8a4v1uMRum2SO026BWLIoQMD/TXg5uZV.0P.uO8m3YEm";
const KNOWN_SALT: [u8; 16] = *b"\x79\x76\x2b\xe9\x97\x0f\x5b\xe7\x3a\xc7\x7c\x0e\x4f\x0a\x38\x51";
const KNOWN_DIGEST: [u8; 23] =
    *b"\xdb\x8f\x03\x60\xd2\xaa\x48\xe1\x41\x55\x98\xbb\xc1\xb5\xc0\xd9\x10\x30\x43\xea\x39\x68\x6a";

const ROUND_TRIP_VECTORS: [&str; 20] = [
    "$2b$04$cVWp4XaNU8a4v1uMRum2SO026BWLIoQMD/TXg5uZV.0P.uO8m3YEm",
    "$2b$04$pQ7gRO7e6wx/936oXhNjrOUNOHL1D0h1N2IDbJZYs.1ppzSof6SPy",
    "$2b$04$SQe9knOzepOVKoYXo9xTteNYr6MBwVz4tpriJVe3PNgYufGIsgKcW",
    "$2b$04$eH8zX.q5Q.j2hO1NkVYJQOM6KxntS/ow3.YzVmFrE4t//CoF4fvne",
    "$2b$04$ahiTdwRXpUG2JLRcIznxc.s1.ydaPGD372bsGs8NqyYjLY1inG5n2",
    "$2b$04$nQn78dV0hGHf5wUBe0zOFu8n07ZbWWOKoGasZKRspZxtt.vBRNMIy",
    "$2b$04$cvXudZ5ugTg95W.rOjMITuM1jC0piCl3zF5cmGhzCibHZrNHkmckG",
    "$2b$04$YYjtiq4Uh88yUsExO0RNTuEJ.tZlsONac16A8OcLHleWFjVawfGvO",
    "$2b$04$WLTjgY/pZSyqX/fbMbJzf.qxCeTMQOzgL.CimRjMHtMxd/VGKojMu",
    "$2b$04$2moPs/x/wnCfeQ5pCheMcuSJQ/KYjOZG780UjA/SiR.KsYWNrC7SG",
    "$2b$04$HrEYC/AQ2HS77G78cQDZQ.r44WGcruKw03KHlnp71yVQEwpsi3xl2",
    "$2b$04$vVYgSTfB8KVbmhbZE/k3R.ux9A0lJUM4CZwCkHI9fifke2.rTF7MG",
    "$2b$04$JfoNrR8.doieoI8..F.C1OQgwE3uTeuardy6lw0AjALUzOARoyf2m",
    "$2b$04$HP3I0PUs7KBEzMBNFw7o3O7f/uxaZU7aaDot1quHMgB2yrwBXsgyy",
    "$2b$04$xnFVhJsTzsFBTeP3PpgbMeMREb6rdKV9faW54Sx.yg9plf4jY8qT6",
    "$2b$04$WQp9.igoLqVr6Qk70mz6xuRxE0RttVXXdukpR9N54x17ecad34ZF6",
    "$2b$04$xgZtlonpAHSU/njOCdKztOPuPFzCNVpB4LGicO4/OGgHv.uKHkwsS",
    "$2b$04$2Siw3Nv3Q/gTOIPetAyPr.GNj3aO0lb1E5E9UumYGKjP9BYqlNWJe",
    "$2b$04$7/Qj7Kd8BcSahPO4khB8me4ssDJCW3r4OGYqPF87jxtrSyPj5cS5m",
    "$2b$04$VvlCUKbTMjaxaYJ.k5juoecpG/7IzcH1AkmqKi.lIZMVIOLClWAk.",
];

fn exp4() -> WorkFactor {
    WorkFactor::exp(4).unwrap()
}

fn fields(text: &str) -> Result<(WorkFactor, [u8; 16], [u8; 23]), ParseError> {
    text.parse::<bcrypt_small::Hash>().map(|h| (h.work_factor, h.salt, h.hash))
}

fn with_byte(text: &str, at: usize, byte: u8) -> Vec<u8> {
    let mut bytes = text.as_bytes().to_vec();
    bytes[at] = byte;
    bytes
}

#[test]
fn parse() {
    assert_eq!(
        "$2b$04$cVWp4XaNU8a4v1uMRum2SO026BWLIoQMD/TXg5uZV.0P.uO8m3YEm".parse::<bcrypt_small::Hash>()
            .map(|h| (h.work_factor, h.salt, h.hash)),
        Ok((
            exp4(),
            *b"\x79\x76\x2b\xe9\x97\x0f\x5b\xe7\x3a\xc7\x7c\x0e\x4f\x0a\x38\x51",
            *b"\xdb\x8f\x03\x60\xd2\xaa\x48\xe1\x41\x55\x98\xbb\xc1\xb5\xc0\xd9\x10\x30\x43\xea\x39\x68\x6a",
        )),
    );
    assert_eq!(
        "$2b$04$cVWp4XaNU8a4v1uMRum2SO026BWLIoQMD/TXg5uZV.0P.uO8m3YEm".parse::<bcrypt_small::Hash>()
            .map(|h| (h.work_factor, h.salt, h.hash)),
        "$2a$04$cVWp4XaNU8a4v1uMRum2SO026BWLIoQMD/TXg5uZV.0P.uO8m3YEm".parse::<bcrypt_small::Hash>()
            .map(|h| (h.work_factor, h.salt, h.hash)),
    );
    assert_eq!(
        "$2b$04$cVWp4XaNU8a4v1uMRum2SO026BWLIoQMD/TXg5uZV.0P.uO8m3YEm".parse::<bcrypt_small::Hash>()
            .map(|h| (h.work_factor, h.salt, h.hash)),
        "$2y$04$cVWp4XaNU8a4v1uMRum2SO026BWLIoQMD/TXg5uZV.0P.uO8m3YEm".parse::<bcrypt_small::Hash>()
            .map(|h| (h.work_factor, h.salt, h.hash)),
    );

    assert_eq!("".parse::<bcrypt_small::Hash>().err(), Some(ParseError::Length));
    assert_eq!("$2b$04$cVWp4XaNU8a4v1uMRum2SO026BWLIoQMD/TXg5uZV.0P.uO8m3YE".parse::<bcrypt_small::Hash>().err(), Some(ParseError::Length));
    assert_eq!("$2b$04$cVWp4XaNU8a4v1uMRum2SO026BWLIoQMD/TXg5uZV.0P.uO8m3YEmm".parse::<bcrypt_small::Hash>().err(), Some(ParseError::Length));

    assert_eq!("$2x$04$cVWp4XaNU8a4v1uMRum2SO026BWLIoQMD/TXg5uZV.0P.uO8m3YEm".parse::<bcrypt_small::Hash>().err(), Some(ParseError::Prefix));

    // The section sign takes two bytes, so that this text has 60.
    assert_eq!("$2b$0\u{a7}cVWp4XaNU8a4v1uMRum2SO026BWLIoQMD/TXg5uZV.0P.uO8m3YEm".parse::<bcrypt_small::Hash>().err(), Some(ParseError::WorkFactor));
    // Encoded twice over it takes four, and the text has 62.
    assert_eq!("$2b$0Â§cVWp4XaNU8a4v1uMRum2SO026BWLIoQMD/TXg5uZV.0P.uO8m3YEm".parse::<bcrypt_small::Hash>().err(), Some(ParseError::Length));
    assert_eq!("$2b$4$ccVWp4XaNU8a4v1uMRum2SO026BWLIoQMD/TXg5uZV.0P.uO8m3YEm".parse::<bcrypt_small::Hash>().err(), Some(ParseError::WorkFactor));

    assert_eq!("$2b$04$cVWp4XaNU8a4v!uMRum2SO026BWLIoQMD/TXg5uZV.0P.uO8m3YEm".parse::<bcrypt_small::Hash>().err(), Some(ParseError::Salt));
    assert_eq!("$2b$04$cVWp4XaNU8a4v1uMRum2SO026BWLIoQMD/TXg5uZV,0P.uO8m3YEm".parse::<bcrypt_small::Hash>().err(), Some(ParseError::Hash));
}

#[test]
fn parse_round_trip() {
    for formatted_hash in &ROUND_TRIP_VECTORS {
        assert_eq!(
            &std::str::from_utf8(&formatted_hash.parse::<bcrypt_small::Hash>().unwrap().to_formatted()).unwrap(),
            formatted_hash
        );
    }
}

#[test]
fn formats_a_known_hash() {
    let hash = bcrypt_small::Hash {
        work_factor: exp4(),
        salt: [b'*'; 16],
        hash: *b"\xa2\x16\x9di\xe4\x9c\xaa\xf5\xe6]0>\x81=_\\,N\xab\x0c\x00\xd3)",
    };
    assert_eq!(
        std::str::from_utf8(&hash.to_formatted()).unwrap(),
        "$2b$04$IgmoIgmoIgmoIgmoIgmoIemfYbYcQaotVkVR.8eRzdVAvMouu.ywi"
    );
}

#[test]
fn known_vector_formats_back() {
    let hash = bcrypt_small::Hash::from_str(KNOWN).unwrap();
    assert_eq!(hash.work_factor.log_rounds(), 4);
    assert_eq!(hash.salt, KNOWN_SALT);
    assert_eq!(hash.hash, KNOWN_DIGEST);
    assert_eq!(&hash.to_formatted()[..], KNOWN.as_bytes());
}

#[test]
fn formatted_text_has_sixty_bytes() {
    assert_eq!(FORMATTED_HASH_SIZE, 60);
    let hash = bcrypt_small::Hash { work_factor: WorkFactor::exp(31).unwrap(), salt: [0xff; 16], hash: [0x00; 23] };
    let text: [u8; FORMATTED_HASH_SIZE] = hash.to_formatted();
    assert_eq!(&text[..], &b"$2b$31$999999999999999999999u..............................."[..]);
}

#[test]
fn from_formatted_reads_bytes_as_from_str_reads_text() {
    for text in ROUND_TRIP_VECTORS {
        let read = bcrypt_small::Hash::from_formatted(text.as_bytes()).unwrap();
        let parsed = text.parse::<bcrypt_small::Hash>().unwrap();
        assert_eq!((read.work_factor, read.salt, read.hash), (parsed.work_factor, parsed.salt, parsed.hash));
    }
    assert_eq!(bcrypt_small::Hash::from_formatted(b"").err(), Some(ParseError::Length));
    assert_eq!(
        bcrypt_small::Hash::from_formatted(&with_byte(KNOWN, 30, 0xff)).err(),
        Some(ParseError::Hash)
    );
}

#[test]
fn prefixes_read_alike() {
    for text in ROUND_TRIP_VECTORS {
        let b = fields(text);
        assert!(b.is_ok());
        for prefix in ["$2a$", "$2y$"] {
            let other = format!("{}{}", prefix, &text[4..]);
            assert_eq!(fields(&other), b);
            // The text form is written with `$2b$` whatever was read.
            assert_eq!(
                std::str::from_utf8(&other.parse::<bcrypt_small::Hash>().unwrap().to_formatted()).unwrap(),
                text
            );
        }
    }
    // The prefixes are alike in what is refused, too.
    for prefix in ["$2a$", "$2b$", "$2y$"] {
        assert_eq!(fields(&format!("{}03$cVWp4XaNU8a4v1uMRum2SO026BWLIoQMD/TXg5uZV.0P.uO8m3YEm", prefix)).err(), Some(ParseError::WorkFactor));
        assert_eq!(fields(&format!("{}04$cVWp4XaNU8a4v!uMRum2SO026BWLIoQMD/TXg5uZV.0P.uO8m3YEm", prefix)).err(), Some(ParseError::Salt));
    }
}

#[test]
fn other_prefixes_are_refused() {
    for prefix in ["$2x$", "$2c$", "$2$$", "$1b$", "$3b$", "#2b$", "$2b#", "$2B$", "$2A$", "2b$$", "    ", "$2b0"] {
        let text = format!("{}{}", prefix, &KNOWN[4..]);
        assert_eq!(text.len(), 60);
        assert_eq!(fields(&text).err(), Some(ParseError::Prefix));
    }
}

#[test]
fn length_is_looked_at_first() {
    assert_eq!(fields(&KNOWN[..59]).err(), Some(ParseError::Length));
    assert_eq!(fields(&format!("{}m", KNOWN)).err(), Some(ParseError::Length));
    // A wrong prefix, work factor, salt and digest, in 59 and in 61 bytes.
    assert_eq!(fields("!2x$x4$cVWp4XaNU8a4v!uMRum2SO026BWLIoQMD/TXg5uZV,0P.uO8m3YE").err(), Some(ParseError::Length));
    assert_eq!(fields("!2x$x4$cVWp4XaNU8a4v!uMRum2SO026BWLIoQMD/TXg5uZV,0P.uO8m3YEmm").err(), Some(ParseError::Length));
    // Sixty characters are not sixty bytes.
    let text = "$2b$0\u{c2}\u{a7}cVWp4XaNU8a4v1uMRum2SO026BWLIoQMD/TXg5uZV.0P.uO8m3YEm";
    assert_eq!(text.chars().count(), 60);
    assert_eq!(text.len(), 62);
    assert_eq!(fields(text).err(), Some(ParseError::Length));
}

#[test]
fn errors_come_in_the_order_of_the_fields() {
    // Prefix before work factor, salt and digest.
    assert_eq!(fields("$2x$x4$cVWp4XaNU8a4v!uMRum2SO026BWLIoQMD/TXg5uZV,0P.uO8m3YEm").err(), Some(ParseError::Prefix));
    // Work factor before salt and digest.
    assert_eq!(fields("$2b$x4$cVWp4XaNU8a4v!uMRum2SO026BWLIoQMD/TXg5uZV,0P.uO8m3YEm").err(), Some(ParseError::WorkFactor));
    // Salt before digest.
    assert_eq!(fields("$2b$04$cVWp4XaNU8a4v!uMRum2SO026BWLIoQMD/TXg5uZV,0P.uO8m3YEm").err(), Some(ParseError::Salt));
}

#[test]
fn work_factor_is_two_digits_from_04_to_31() {
    for n in 0..100_u32 {
        let text = format!("$2b${:02}{}", n, &KNOWN[6..]);
        let read = fields(&text);
        if (4..=31).contains(&n) {
            let (work_factor, salt, digest) = read.unwrap();
            assert_eq!(work_factor.log_rounds(), n);
            assert_eq!(Some(work_factor), WorkFactor::exp(n));
            assert_eq!((salt, digest), (KNOWN_SALT, KNOWN_DIGEST));
            assert_eq!(
                std::str::from_utf8(&text.parse::<bcrypt_small::Hash>().unwrap().to_formatted()).unwrap(),
                text
            );
        } else {
            assert_eq!(read.err(), Some(ParseError::WorkFactor));
        }
    }
    for field in ["4$", " 4", "4 ", "+4", "-4", "0x", "x0", "1a", "  ", "$$", "0.", "/9", ":0", "1:", "1/"] {
        let text = format!("$2b${}{}", field, &KNOWN[6..]);
        assert_eq!(fields(&text).err(), Some(ParseError::WorkFactor));
    }
}

#[test]
fn corrupted_salt_and_digest() {
    for at in 7..29 {
        assert_eq!(
            bcrypt_small::Hash::from_formatted(&with_byte(KNOWN, at, b'!')).err(),
            Some(ParseError::Salt)
        );
    }
    for at in 29..60 {
        assert_eq!(
            bcrypt_small::Hash::from_formatted(&with_byte(KNOWN, at, b',')).err(),
            Some(ParseError::Hash)
        );
    }
}

#[test]
fn byte_after_work_factor_is_not_read() {
    for byte in [b'$', b'.', b'x', b'!', 0x00] {
        let read = bcrypt_small::Hash::from_formatted(&with_byte(KNOWN, 6, byte)).unwrap();
        assert_eq!((read.work_factor, read.salt, read.hash), (exp4(), KNOWN_SALT, KNOWN_DIGEST));
        assert_eq!(&read.to_formatted()[..], KNOWN.as_bytes());
    }
}

#[test]
fn text_that_is_not_canonical_is_read_and_written_canonically() {
    // The salt ends in `O` (010000); `P` (010001) differs in a bit that is
    // not read.
    let read = bcrypt_small::Hash::from_formatted(&with_byte(KNOWN, 28, b'P')).unwrap();
    assert_eq!(read.salt, KNOWN_SALT);
    assert_eq!(&read.to_formatted()[..], KNOWN.as_bytes());
    // The digest ends in `m` (101000); `n` (101001) differs in a bit that is
    // not read.
    let read = bcrypt_small::Hash::from_formatted(&with_byte(KNOWN, 59, b'n')).unwrap();
    assert_eq!(read.hash, KNOWN_DIGEST);
    assert_eq!(&read.to_formatted()[..], KNOWN.as_bytes());
}

#[test]
fn reading_undoes_writing() {
    for n in 4..=31_u32 {
        let mut salt = [0_u8; 16];
        let mut digest = [0_u8; 23];
        for (i, byte) in salt.iter_mut().enumerate() {
            *byte = (n as usize * 31 + i * 17) as u8;
        }
        for (i, byte) in digest.iter_mut().enumerate() {
            *byte = (n as usize * 13 + i * 29 + 200) as u8;
        }
        let hash = bcrypt_small::Hash { work_factor: WorkFactor::exp(n).unwrap(), salt, hash: digest };
        let text = hash.to_formatted();
        assert_eq!(&text[..4], b"$2b$");
        assert_eq!(text[6], b'$');
        let read = bcrypt_small::Hash::from_formatted(&text).unwrap();
        assert_eq!((read.work_factor, read.salt, read.hash), (hash.work_factor, salt, digest));
    }
}

#[test]
fn clone_keeps_the_fields() {
    let hash = bcrypt_small::Hash::from_str(KNOWN).unwrap();
    let copy = hash.clone();
    assert_eq!((copy.work_factor, copy.salt, copy.hash), (hash.work_factor, hash.salt, hash.hash));
}

#[test]
fn parse_error_messages() {
    assert_eq!(ParseError::Length.message(), "invalid length");
    assert_eq!(ParseError::Prefix.message(), "invalid prefix");
    assert_eq!(ParseError::WorkFactor.message(), "invalid work factor");
    assert_eq!(ParseError::Salt.message(), "invalid salt");
    assert_eq!(ParseError::Hash.message(), "invalid hash");
}

#[test]
fn work_factors() {
    for n in 0..4 {
        assert_eq!(WorkFactor::exp(n), None);
    }
    for n in 4..=31 {
        assert_eq!(WorkFactor::exp(n).map(|w| w.log_rounds()), Some(n));
    }
    for n in [32, 33, 40, 100, 255, 256, u32::MAX] {
        assert_eq!(WorkFactor::exp(n), None);
    }
    assert!(WorkFactor::exp(4) < WorkFactor::exp(5));
}
