use rauthy_common::addr::{parse_ip, IpAddr};
use std::str::FromStr;

// The address parser of the standard library, reached through the `cidr`
// crate's combinator, which reads a text without `/` as a single host.
fn reference(text: &str) -> Option<IpAddr> {
    if text.contains('/') {
        return None;
    }
    match cidr::parsers::parse_cidr::<cidr::IpCidr, _>(text, FromStr::from_str) {
        Ok(cidr::IpCidr::V4(c)) => Some(IpAddr::V4(u32::from(c.first_address()))),
        Ok(cidr::IpCidr::V6(c)) => Some(IpAddr::V6(u128::from(c.first_address()))),
        Err(_) => None,
    }
}

#[test]
fn parse_ip_reads_ipv4() {
    assert_eq!(parse_ip("192.168.100.1"), Some(IpAddr::V4(0xc0a8_6401)));
    assert_eq!(parse_ip("0.0.0.0"), Some(IpAddr::V4(0)));
    assert_eq!(parse_ip("255.255.255.255"), Some(IpAddr::V4(0xffff_ffff)));
    assert_eq!(parse_ip("10.0.0.1"), Some(IpAddr::V4(0x0a00_0001)));
    assert_eq!(parse_ip("1.2.3.4"), Some(IpAddr::V4(0x0102_0304)));
}

#[test]
fn parse_ip_rejects_what_is_no_ipv4() {
    for text in [
        "", " ", "1", "1.2", "1.2.3", "1.2.3.4.5", "1.2.3.", ".1.2.3", "1..2.3", "256.1.1.1",
        "1.2.3.256", "01.2.3.4", "1.2.3.04", "1.2.3.4 ", " 1.2.3.4", "1.2.3.a", "1.2.3.-4",
        "+1.2.3.4", "1,2,3,4", "1.2.3.4/32", "0x1.2.3.4", "1.2.3.1000", "999.999.999.999",
        "1.2.3.4\n", "١.٢.٣.٤", "00.0.0.0", "1.2.3.4.", "localhost",
    ] {
        assert_eq!(parse_ip(text), None, "{:?}", text);
    }
}

#[test]
fn parse_ip_reads_ipv6() {
    assert_eq!(parse_ip("::"), Some(IpAddr::V6(0)));
    assert_eq!(parse_ip("::1"), Some(IpAddr::V6(1)));
    assert_eq!(parse_ip("1::"), Some(IpAddr::V6(1u128 << 112)));
    assert_eq!(
        parse_ip("2001:db8::ff00:42:8329"),
        Some(IpAddr::V6(0x2001_0db8_0000_0000_0000_ff00_0042_8329))
    );
    assert_eq!(
        parse_ip("2001:0db8:0000:0000:0000:ff00:0042:8329"),
        Some(IpAddr::V6(0x2001_0db8_0000_0000_0000_ff00_0042_8329))
    );
    assert_eq!(
        parse_ip("1:2:3:4:5:6:7:8"),
        Some(IpAddr::V6(0x0001_0002_0003_0004_0005_0006_0007_0008))
    );
    assert_eq!(parse_ip("::ffff:192.168.100.1"), Some(IpAddr::V6(0xffff_c0a8_6401)));
    assert_eq!(
        parse_ip("1:2:3:4:5:6:1.2.3.4"),
        Some(IpAddr::V6(0x0001_0002_0003_0004_0005_0006_0102_0304))
    );
    assert_eq!(
        parse_ip("ABCD:ef01::"),
        Some(IpAddr::V6(0xabcd_ef01_0000_0000_0000_0000_0000_0000))
    );
    assert_eq!(
        parse_ip("1:2:3:4:5:6:7::"),
        Some(IpAddr::V6(0x0001_0002_0003_0004_0005_0006_0007_0000))
    );
    assert_eq!(
        parse_ip("::2:3:4:5:6:7:8"),
        Some(IpAddr::V6(0x0000_0002_0003_0004_0005_0006_0007_0008))
    );
}

#[test]
fn parse_ip_rejects_what_is_no_ipv6() {
    for text in [
        ":", ":::", "1:", ":1", "1:2:3:4:5:6:7", "1:2:3:4:5:6:7:8:9", "1::2::3", "12345::",
        "g::", "1:2:3:4:5:6:7:8::", "::1:2:3:4:5:6:7:8", "1::2:3:4:5:6:7:8", "1.2.3.4::",
        "::1.2.3.4:5", "1:2:3:4:5:6:7:1.2.3.4", "::1.2.3", "::1.2.3.256", "::01.2.3.4",
        "1:2:3:4:5:6:7::8", "::%eth0", "fe80::1%1", "[::1]", "::1 ", " ::1", "1:2:3:4:5:6::1.2.3.4",
        "::ffff:1.2.3.4.5", "1::2:", ":1::2", "1:::2", "::.1.2.3", "1.2.3.4:5::",
    ] {
        assert_eq!(parse_ip(text), None, "{:?}", text);
    }
}

#[test]
fn parse_ip_agrees_with_the_standard_library() {
    let pieces = [
        "", "0", "1", "9", "00", "01", "10", "255", "256", "1000", "a", "F", "ffff", "0000",
        "fffff", "g", ".", "..", ":", "::", ":::", "1.2.3.4", "1.2.3", "0.0.0.0", "1:2", "::1",
        "1::", "%", " ", "/",
    ];
    let mut checked = 0;
    for a in pieces {
        for b in pieces {
            for c in pieces {
                let text = format!("{}{}{}", a, b, c);
                assert_eq!(parse_ip(&text), reference(&text), "{:?}", text);
                checked += 1;
            }
        }
    }
    assert_eq!(checked, pieces.len() * pieces.len() * pieces.len());
}

#[test]
fn parse_ip_agrees_with_the_standard_library_on_group_counts() {
    let groups = ["0", "1", "abcd", "00ff"];
    let tails = ["", "1.2.3.4", "255.255.255.255", "1.2.3"];
    for head in 0..10 {
        for tail in 0..10 {
            for sep in [":", "::"] {
                for last in tails {
                    for g in groups {
                        let mut parts: Vec<String> = Vec::new();
                        for _ in 0..head {
                            parts.push(g.to_string());
                        }
                        let mut text = parts.join(":");
                        text.push_str(sep);
                        let mut parts: Vec<String> = Vec::new();
                        for _ in 0..tail {
                            parts.push(g.to_string());
                        }
                        if !last.is_empty() {
                            parts.push(last.to_string());
                        }
                        text.push_str(&parts.join(":"));
                        assert_eq!(parse_ip(&text), reference(&text), "{:?}", text);
                    }
                }
            }
        }
    }
}

fn next(state: &mut u64) -> u64 {
    *state = state.wrapping_mul(6364136223846793005).wrapping_add(1442695040888963407);
    *state >> 33
}

#[test]
fn parse_ip_agrees_with_the_standard_library_on_random_text() {
    let alphabet: Vec<char> = "0123456789abcfAF:::...g% ".chars().collect();
    let mut state = 0x5eed_u64;
    let mut accepted = 0;
    for _ in 0..150_000 {
        let len = (next(&mut state) % 24) as usize;
        let text: String = (0..len)
            .map(|_| alphabet[(next(&mut state) % alphabet.len() as u64) as usize])
            .collect();
        let ours = parse_ip(&text);
        assert_eq!(ours, reference(&text), "{:?}", text);
        if ours.is_some() {
            accepted += 1;
        }
    }
    assert!(accepted > 0);
}

#[test]
fn parse_ip_agrees_with_the_standard_library_on_damaged_literals() {
    let literals = [
        "192.168.100.1", "0.0.0.0", "255.255.255.255", "10.9.8.7", "::", "::1", "1::",
        "2001:db8::ff00:42:8329", "1:2:3:4:5:6:7:8", "::ffff:192.168.100.1", "1:2:3:4:5:6:1.2.3.4",
        "fe80::1:2:3:4", "a:b:c:d:e:f:0:1", "1:2:3:4:5:6:7::", "::2:3:4:5:6:7:8", "1::1.2.3.4",
        "0:0:0:0:0:0:0:0", "ffff:ffff:ffff:ffff:ffff:ffff:255.255.255.255",
    ];
    let inserts: Vec<char> = "0159afF:.g".chars().collect();
    let mut state = 0x0dd_ba11_u64;
    for literal in literals {
        assert!(parse_ip(literal).is_some(), "{:?}", literal);
        assert_eq!(parse_ip(literal), reference(literal), "{:?}", literal);
        let chars: Vec<char> = literal.chars().collect();
        for _ in 0..4_000 {
            let mut damaged = chars.clone();
            for _ in 0..=(next(&mut state) % 3) {
                let at = (next(&mut state) % (damaged.len() as u64 + 1)) as usize;
                match next(&mut state) % 3 {
                    0 if at < damaged.len() => {
                        damaged.remove(at);
                    }
                    1 if at < damaged.len() => {
                        damaged[at] = inserts[(next(&mut state) % inserts.len() as u64) as usize];
                    }
                    _ => {
                        damaged.insert(at, inserts[(next(&mut state) % inserts.len() as u64) as usize]);
                    }
                }
            }
            let text: String = damaged.into_iter().collect();
            assert_eq!(parse_ip(&text), reference(&text), "{:?}", text);
        }
    }
}
