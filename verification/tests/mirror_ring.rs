use bdex::manifest::MetadataBlock;
use bdex::mirror::{candidate_url, RING};

const BASE: &str = "http://i0.hdslb.com/x.png";

#[test]
fn ring_has_eight_places() {
    assert_eq!(RING, 8);
}

#[test]
fn each_attempt_has_its_address() {
    assert_eq!(candidate_url(BASE, 0), "http://i0.hdslb.com/x.png");
    assert_eq!(candidate_url(BASE, 1), "https://i3.hdslb.com/x.png");
    assert_eq!(candidate_url(BASE, 2), "http://i3.hdslb.com/x.png");
    assert_eq!(candidate_url(BASE, 3), "https://i2.hdslb.com/x.png");
    assert_eq!(candidate_url(BASE, 4), "http://i2.hdslb.com/x.png");
    assert_eq!(candidate_url(BASE, 5), "https://i1.hdslb.com/x.png");
    assert_eq!(candidate_url(BASE, 6), "http://i1.hdslb.com/x.png");
    assert_eq!(candidate_url(BASE, 7), "https://i0.hdslb.com/x.png");
}

#[test]
fn eight_attempts_give_eight_distinct_addresses() {
    let urls: Vec<String> = (0..8).map(|attempt| candidate_url(BASE, attempt)).collect();
    for i in 0..urls.len() {
        for j in 0..i {
            assert_ne!(urls[i], urls[j]);
        }
    }
}

#[test]
fn the_ninth_attempt_is_the_first_again() {
    assert_eq!(candidate_url(BASE, 8), BASE);
    for attempt in 0..40u32 {
        assert_eq!(candidate_url(BASE, attempt + 8), candidate_url(BASE, attempt));
    }
    assert_eq!(candidate_url(BASE, u32::MAX), candidate_url(BASE, 7));
}

#[test]
fn a_secure_address_stays_secure_and_changes_host() {
    let base = "https://i0.hdslb.com/bfs/album/ab.png";
    assert_eq!(candidate_url(base, 0), base);
    assert_eq!(candidate_url(base, 1), "https://i3.hdslb.com/bfs/album/ab.png");
    assert_eq!(candidate_url(base, 2), "https://i3.hdslb.com/bfs/album/ab.png");
    assert_eq!(candidate_url(base, 3), "https://i2.hdslb.com/bfs/album/ab.png");
    assert_eq!(candidate_url(base, 4), "https://i2.hdslb.com/bfs/album/ab.png");
    assert_eq!(candidate_url(base, 5), "https://i1.hdslb.com/bfs/album/ab.png");
    assert_eq!(candidate_url(base, 6), "https://i1.hdslb.com/bfs/album/ab.png");
    assert_eq!(candidate_url(base, 7), base);
    assert_eq!(candidate_url("https://i0.hdslb.com/x.png", 1), "https://i3.hdslb.com/x.png");
    assert_eq!(candidate_url("https://i0.hdslb.com/x.png", 9), "https://i3.hdslb.com/x.png");
}

#[test]
fn what_follows_the_host_is_never_touched() {
    let base = "http://i0.hdslb.com/i0.hdslb.com";
    assert_eq!(candidate_url(base, 1), "https://i3.hdslb.com/i0.hdslb.com");
    assert_eq!(candidate_url(base, 2), "http://i3.hdslb.com/i0.hdslb.com");
    assert_eq!(candidate_url(base, 6), "http://i1.hdslb.com/i0.hdslb.com");
    let base = "http://i0.hdslb.com/x.png?from=http://i0.hdslb.com/y";
    assert_eq!(candidate_url(base, 1), "https://i3.hdslb.com/x.png?from=http://i0.hdslb.com/y");
    assert_eq!(candidate_url(base, 4), "http://i2.hdslb.com/x.png?from=http://i0.hdslb.com/y");
    assert_eq!(candidate_url(base, 7), "https://i0.hdslb.com/x.png?from=http://i0.hdslb.com/y");
    let base = "https://i0.hdslb.com/http://i0.hdslb.com";
    assert_eq!(candidate_url(base, 3), "https://i2.hdslb.com/http://i0.hdslb.com");
    assert_eq!(candidate_url(base, 7), base);
}

#[test]
fn an_address_of_host_and_scheme_alone_is_rewritten_too() {
    assert_eq!(candidate_url("http://i0.hdslb.com", 1), "https://i3.hdslb.com");
    assert_eq!(candidate_url("http://i0.hdslb.com", 2), "http://i3.hdslb.com");
    assert_eq!(candidate_url("https://i0.hdslb.com", 5), "https://i1.hdslb.com");
    assert_eq!(candidate_url("https://i0.hdslb.com", 6), "https://i1.hdslb.com");
}

#[test]
fn an_address_elsewhere_only_changes_scheme() {
    let base = "http://example.org/a.png";
    for attempt in 0..7u32 {
        assert_eq!(candidate_url(base, attempt), base);
    }
    assert_eq!(candidate_url(base, 7), "https://example.org/a.png");
}

/// The table over scheme and host for an address on the first host; for any
/// other address, the texts replaced wherever they stand.
fn expected(base: &str, attempt: u32) -> String {
    let turn = attempt % 8;
    if turn == 0 {
        return base.to_string();
    }
    let host = match turn {
        1 | 2 => "i3.hdslb.com",
        3 | 4 => "i2.hdslb.com",
        5 | 6 => "i1.hdslb.com",
        _ => "i0.hdslb.com",
    };
    if let Some(rest) = base.strip_prefix("http://i0.hdslb.com") {
        let scheme = if turn % 2 == 1 { "https://" } else { "http://" };
        return format!("{}{}{}", scheme, host, rest);
    }
    if let Some(rest) = base.strip_prefix("https://i0.hdslb.com") {
        return format!("https://{}{}", host, rest);
    }
    if turn == 7 {
        base.replace("http://", "https://")
    } else if turn % 2 == 1 {
        base.replace("http://i0.hdslb.com", &format!("https://{}", host))
    } else {
        base.replace("i0.hdslb.com", host)
    }
}

#[test]
fn an_address_elsewhere_has_every_occurrence_replaced() {
    assert_eq!(
        candidate_url("ftp://h/http://i0.hdslb.com/http://i0.hdslb.com", 1),
        "ftp://h/https://i3.hdslb.com/https://i3.hdslb.com"
    );
    assert_eq!(candidate_url("i0.hdslb.com/i0.hdslb.com", 4), "i2.hdslb.com/i2.hdslb.com");
    assert_eq!(candidate_url("//http://http://x", 7), "//https://https://x");
    assert_eq!(candidate_url("i0.hdslb.ci0.hdslb.com", 2), "i0.hdslb.ci3.hdslb.com");
    let bases = [
        "",
        "http://",
        "i0.hdslb.com",
        "http://i0.hdslb.com",
        "https://i0.hdslb.com",
        "http://i0.hdslb.com/http://i0.hdslb.com/x",
        "https://i0.hdslb.com/i0.hdslb.com/x",
        "hhttp://i0.hdslb.comm",
        "http://http://i0.hdslb.com",
        "i0.hdslb.comi0.hdslb.com",
        "i0.hdslb.ci0.hdslb.com",
        "http:/http://i0.hdslb.co",
        "http://i0.hdslb.com/\u{56fe}\u{7247}.png?from=http://i0.hdslb.com",
        "HTTP://I0.HDSLB.COM/x.png",
    ];
    for base in bases {
        for attempt in 0..8u32 {
            assert_eq!(candidate_url(base, attempt), expected(base, attempt));
        }
    }
}

#[test]
fn a_block_asks_the_policy_with_its_own_address() {
    let block = MetadataBlock { url: BASE.to_string(), size: 3, sha1: "00".to_string() };
    for attempt in 0..16u32 {
        assert_eq!(block.candidate_url(attempt), candidate_url(BASE, attempt));
    }
}

#[test]
fn addresses_pieced_together_at_random_are_rewritten_alike() {
    let pieces = [
        "http://", "https://", "i0.hdslb.com", "i1.hdslb.com", "http:/", "ttp://", "i0.hdslb.co",
        "0.hdslb.com", "h", "i", "/", ".", "m", "x.png", "\u{56fe}",
    ];
    let mut state: u64 = 0x2545f4914f6cdd1d;
    for _ in 0..400 {
        let mut base = String::new();
        state = state.wrapping_mul(6364136223846793005).wrapping_add(1442695040888963407);
        let count = (state >> 33) % 7;
        for _ in 0..count {
            state = state.wrapping_mul(6364136223846793005).wrapping_add(1442695040888963407);
            base.push_str(pieces[((state >> 33) % pieces.len() as u64) as usize]);
        }
        for attempt in 0..8u32 {
            assert_eq!(candidate_url(&base, attempt), expected(&base, attempt));
        }
    }
}
