//! Per-platform facts and names: how often the clipboard is polled, the
//! platform's name, the device's display name and the mDNS host name.

use vstd::prelude::*;
use vstd::string::*;
use crate::text::{char_is_ascii_alnum, chars_of, is_ascii_alnum, push_char, trim, trimmed};

verus! {

/// The platform the application runs on.
#[derive(Clone, Copy, Debug, PartialEq, Eq, Structural)]
pub enum TargetPlatform {
    Linux,
    Windows,
    MacOs,
    Android,
    Other,
}

/// How often the clipboard is polled, in milliseconds.
pub fn clipboard_poll_interval(platform: TargetPlatform) -> (millis: u64)
    ensures
        millis == match platform {
            TargetPlatform::Linux => 700u64,
            TargetPlatform::Windows => 450u64,
            TargetPlatform::MacOs => 500u64,
            TargetPlatform::Android => 900u64,
            TargetPlatform::Other => 1000u64,
        },
{
    match platform {
        TargetPlatform::Linux => 700,
        TargetPlatform::Windows => 450,
        TargetPlatform::MacOs => 500,
        TargetPlatform::Android => 900,
        TargetPlatform::Other => 1000,
    }
}

/// The name the device announces for its platform; the Windows build
/// defines none.
pub fn platform_name(platform: TargetPlatform) -> (name: Option<&'static str>)
    ensures
        match platform {
            TargetPlatform::Linux => name matches Some(n) && n@ == "linux"@,
            TargetPlatform::MacOs => name matches Some(n) && n@ == "macos"@,
            TargetPlatform::Android => name matches Some(n) && n@ == "android"@,
            TargetPlatform::Other => name matches Some(n) && n@ == "unknown"@,
            TargetPlatform::Windows => name is None,
        },
{
    match platform {
        TargetPlatform::Linux => Some("linux"),
        TargetPlatform::MacOs => Some("macos"),
        TargetPlatform::Android => Some("android"),
        TargetPlatform::Other => Some("unknown"),
        TargetPlatform::Windows => None,
    }
}

/// The device's display name from its host name: trimmed, `AirDrop Device`
/// where nothing is left.
pub fn device_name(hostname: &str) -> (name: String)
    ensures
        name@ == if trimmed(hostname@).len() == 0 { "AirDrop Device"@ } else { trimmed(hostname@) },
{
    let name = trim(hostname);
    if name.as_str().is_empty() {
        String::from_str("AirDrop Device")
    } else {
        name
    }
}

/// Each character kept where it is an ASCII letter, digit or `-`, else `-`.
pub open spec fn hostname_chars(s: Seq<char>) -> Seq<char> {
    s.map_values(|c: char| if is_ascii_alnum(c) || c == '-' { c } else { '-' })
}

/// The index of the first character that is not `-` (the length if none).
pub open spec fn first_non_dash(s: Seq<char>) -> int
    decreases s.len(),
{
    if s.len() == 0 || s[0] != '-' {
        0
    } else {
        1 + first_non_dash(s.drop_first())
    }
}

/// `trim_matches('-')`.
pub open spec fn trim_dashes(s: Seq<char>) -> Seq<char>
    decreases s.len(),
{
    if s.len() > 0 && s.last() == '-' {
        trim_dashes(s.drop_last())
    } else {
        s.skip(first_non_dash(s))
    }
}

/// The host name announced on the local network: the device name reduced to
/// letters, digits and `-`, without leading or trailing `-`, at most 48
/// characters, `airdrop-device` where nothing is left.
pub open spec fn sanitized_hostname(value: Seq<char>) -> Seq<char> {
    let t = trim_dashes(hostname_chars(value));
    if t.len() == 0 {
        "airdrop-device"@
    } else if t.len() > 48 {
        t.take(48)
    } else {
        t
    }
}

proof fn lemma_first_non_dash(s: Seq<char>)
    ensures
        0 <= first_non_dash(s) <= s.len(),
        forall|i: int| 0 <= i < first_non_dash(s) ==> s[i] == '-',
        first_non_dash(s) < s.len() ==> s[first_non_dash(s)] != '-',
    decreases s.len(),
{
    if s.len() > 0 && s[0] == '-' {
        lemma_first_non_dash(s.drop_first());
        assert forall|i: int| 0 <= i < first_non_dash(s) implies s[i] == '-' by {
            if i > 0 {
                assert(s[i] == s.drop_first()[i - 1]);
            }
        }
    }
}

proof fn lemma_trim_dashes(s: Seq<char>)
    ensures
        exists|a: int, b: int| 0 <= a <= b <= s.len() && trim_dashes(s) == s.subrange(a, b)
            && (forall|i: int| 0 <= i < a ==> s[i] == '-') && (forall|i: int| b <= i < s.len() ==> s[i] == '-')
            && (a < b ==> s[a] != '-' && s[b - 1] != '-')
            && (a == b ==> forall|i: int| 0 <= i < s.len() ==> s[i] == '-'),
    decreases s.len(),
{
    if s.len() > 0 && s.last() == '-' {
        lemma_trim_dashes(s.drop_last());
        let (a, b) = choose|a: int, b: int| 0 <= a <= b <= s.drop_last().len() && trim_dashes(s.drop_last()) == s.drop_last().subrange(a, b)
            && (forall|i: int| 0 <= i < a ==> s.drop_last()[i] == '-') && (forall|i: int| b <= i < s.drop_last().len() ==> s.drop_last()[i] == '-')
            && (a < b ==> s.drop_last()[a] != '-' && s.drop_last()[b - 1] != '-')
            && (a == b ==> forall|i: int| 0 <= i < s.drop_last().len() ==> s.drop_last()[i] == '-');
        assert(s.drop_last().subrange(a, b) =~= s.subrange(a, b));
        assert(forall|i: int| 0 <= i < a ==> s[i] == s.drop_last()[i]);
        assert forall|i: int| b <= i < s.len() implies s[i] == '-' by {
            if i < s.len() - 1 {
                assert(s[i] == s.drop_last()[i]);
            }
        }
        if a == b {
            assert forall|i: int| 0 <= i < s.len() implies s[i] == '-' by {
                if i < s.len() - 1 {
                    assert(s[i] == s.drop_last()[i]);
                }
            }
        } else {
            assert(s[a] == s.drop_last()[a] && s[b - 1] == s.drop_last()[b - 1]);
        }
    } else {
        lemma_first_non_dash(s);
        let a = first_non_dash(s);
        let b = s.len() as int;
        assert(s.skip(a) =~= s.subrange(a, b));
        if a == b {
            assert(forall|i: int| 0 <= i < s.len() ==> s[i] == '-');
        } else {
            assert(s[b - 1] == s.last());
        }
    }
}

/// The mDNS host name for a device name.
pub fn sanitize_hostname(value: &str) -> (name: String)
    ensures
        name@ == sanitized_hostname(value@),
{
    let chars = chars_of(value);
    let mut mapped: Vec<char> = Vec::new();
    let mut i: usize = 0;
    while i < chars.len()
        invariant
            chars@ == value@,
            i <= chars@.len(),
            mapped@ == hostname_chars(value@.take(i as int)),
        decreases chars@.len() - i,
    {
        let c = chars[i];
        mapped.push(if char_is_ascii_alnum(c) || c == '-' { c } else { '-' });
        i = i + 1;
        proof {
            assert(hostname_chars(value@.take(i as int)) =~= hostname_chars(value@.take(i - 1)).push(
                if is_ascii_alnum(c) || c == '-' { c } else { '-' },
            ));
        }
    }
    proof {
        assert(value@.take(chars@.len() as int) =~= value@);
    }
    let ghost h = mapped@;
    let mut start: usize = 0;
    while start < mapped.len() && mapped[start] == '-'
        invariant
            h == mapped@,
            start <= mapped@.len(),
            forall|k: int| 0 <= k < start ==> mapped@[k] == '-',
        decreases mapped@.len() - start,
    {
        start = start + 1;
    }
    let mut end: usize = mapped.len();
    while end > start && mapped[end - 1] == '-'
        invariant
            h == mapped@,
            start <= end <= mapped@.len(),
            forall|k: int| end <= k < mapped@.len() ==> mapped@[k] == '-',
        decreases end - start,
    {
        end = end - 1;
    }
    proof {
        lemma_trim_dashes(h);
        let (a, b) = choose|a: int, b: int| 0 <= a <= b <= h.len() && trim_dashes(h) == h.subrange(a, b)
            && (forall|i: int| 0 <= i < a ==> h[i] == '-') && (forall|i: int| b <= i < h.len() ==> h[i] == '-')
            && (a < b ==> h[a] != '-' && h[b - 1] != '-')
            && (a == b ==> forall|i: int| 0 <= i < h.len() ==> h[i] == '-');
        if start < end {
            assert(h[start as int] != '-');
            assert(h[end - 1] != '-');
            if a < b {
                if a < start {
                    assert(h[a] == '-');
                }
                if start < a {
                    assert(h[start as int] == '-');
                }
                if b > end {
                    assert(h[b - 1] == '-');
                }
                if end > b {
                    assert(h[end - 1] == '-');
                }
            }
            assert(trim_dashes(h) =~= h.subrange(start as int, end as int));
        } else {
            if start < h.len() {
                assert(h[start as int] != '-');
                assert(h[start as int] == '-');
            }
            assert(forall|i: int| 0 <= i < h.len() ==> h[i] == '-');
            if a < b {
                assert(h[a] == '-');
            }
            assert(trim_dashes(h).len() == 0);
        }
    }
    if start == end {
        return String::from_str("airdrop-device");
    }
    let stop: usize = if end - start > 48 { start + 48 } else { end };
    let name = crate::text::string_from_chars(mapped.as_slice(), start, stop);
    proof {
        if end - start > 48 {
            assert(h.subrange(start as int, stop as int) =~= h.subrange(start as int, end as int).take(48));
        }
    }
    name
}

} // verus!
