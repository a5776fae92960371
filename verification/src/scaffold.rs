//! Pure helpers of the workspace scaffolding tool: directory-segment
//! sanitization and implementation-directory naming.

use vstd::prelude::*;
use crate::text::{chars_to_string, dec_str, str_chars, trim_chars, trim_spec, u64_to_string};

verus! {

/// Whether a character counts as alphanumeric, as `char::is_alphanumeric`
/// classifies it: a function of the character alone.
pub uninterp spec fn char_is_alphanumeric(c: char) -> bool;

pub assume_specification[ char::is_alphanumeric ](c: char) -> (r: bool)
    ensures
        r == char_is_alphanumeric(c),
;

/// ASCII uppercase letters mapped to lowercase; anything else unchanged,
/// as `char::to_ascii_lowercase` behaves.
pub open spec fn ascii_lower(c: char) -> char {
    if c == 'A' {
        'a'
    } else if c == 'B' {
        'b'
    } else if c == 'C' {
        'c'
    } else if c == 'D' {
        'd'
    } else if c == 'E' {
        'e'
    } else if c == 'F' {
        'f'
    } else if c == 'G' {
        'g'
    } else if c == 'H' {
        'h'
    } else if c == 'I' {
        'i'
    } else if c == 'J' {
        'j'
    } else if c == 'K' {
        'k'
    } else if c == 'L' {
        'l'
    } else if c == 'M' {
        'm'
    } else if c == 'N' {
        'n'
    } else if c == 'O' {
        'o'
    } else if c == 'P' {
        'p'
    } else if c == 'Q' {
        'q'
    } else if c == 'R' {
        'r'
    } else if c == 'S' {
        's'
    } else if c == 'T' {
        't'
    } else if c == 'U' {
        'u'
    } else if c == 'V' {
        'v'
    } else if c == 'W' {
        'w'
    } else if c == 'X' {
        'x'
    } else if c == 'Y' {
        'y'
    } else if c == 'Z' {
        'z'
    } else {
        c
    }
}

pub fn to_ascii_lower(c: char) -> (r: char)
    ensures
        r == ascii_lower(c),
{
    if 'A' <= c && c <= 'Z' {
        if c == 'A' {
            'a'
        } else if c == 'B' {
            'b'
        } else if c == 'C' {
            'c'
        } else if c == 'D' {
            'd'
        } else if c == 'E' {
            'e'
        } else if c == 'F' {
            'f'
        } else if c == 'G' {
            'g'
        } else if c == 'H' {
            'h'
        } else if c == 'I' {
            'i'
        } else if c == 'J' {
            'j'
        } else if c == 'K' {
            'k'
        } else if c == 'L' {
            'l'
        } else if c == 'M' {
            'm'
        } else if c == 'N' {
            'n'
        } else if c == 'O' {
            'o'
        } else if c == 'P' {
            'p'
        } else if c == 'Q' {
            'q'
        } else if c == 'R' {
            'r'
        } else if c == 'S' {
            's'
        } else if c == 'T' {
            't'
        } else if c == 'U' {
            'u'
        } else if c == 'V' {
            'v'
        } else if c == 'W' {
            'w'
        } else if c == 'X' {
            'x'
        } else if c == 'Y' {
            'y'
        } else {
            'z'
        }
    } else {
        c
    }
}

/// Character-wise sanitization: `#` spells out as `sharp`, alphanumerics
/// are kept in ASCII lowercase, everything else is dropped.
pub open spec fn sanitize_chars(s: Seq<char>) -> Seq<char>
    decreases s.len(),
{
    if s.len() == 0 {
        Seq::empty()
    } else {
        let rest = sanitize_chars(s.skip(1));
        if s[0] == '#' {
            "sharp"@ + rest
        } else if char_is_alphanumeric(s[0]) {
            seq![ascii_lower(s[0])] + rest
        } else {
            rest
        }
    }
}

/// The sanitized form of a directory-name segment: the input trimmed, then
/// sanitized character by character.
pub open spec fn sanitize_segment_spec(s: Seq<char>) -> Seq<char> {
    sanitize_chars(trim_spec(s))
}

/// Normalizes one segment of an implementation directory name to lowercase
/// alphanumerics, spelling `#` out as `sharp`.
pub fn sanitize_segment(value: &str) -> (r: String)
    ensures
        r@ == sanitize_segment_spec(value@),
{
    let v = str_chars(value);
    let t = trim_chars(&v);
    let n = t.len();
    let mut out: Vec<char> = Vec::new();
    let mut i: usize = 0;
    proof {
        assert(t@.skip(0) =~= t@);
        assert(out@ + sanitize_chars(t@) =~= sanitize_chars(t@));
    }
    while i < n
        invariant
            i <= n,
            n == t@.len(),
            sanitize_chars(t@) == out@ + sanitize_chars(t@.skip(i as int)),
        decreases n - i,
    {
        let ghost rest = t@.skip(i as int);
        let ghost pre = out@;
        proof {
            assert(rest[0] == t@[i as int]);
            assert(rest.skip(1) =~= t@.skip(i + 1 as int));
        }
        let c = t[i];
        if c == '#' {
            out.push('s');
            out.push('h');
            out.push('a');
            out.push('r');
            out.push('p');
            proof {
                reveal_strlit("sharp");
                assert("sharp"@ =~= seq!['s', 'h', 'a', 'r', 'p']);
                assert(out@ =~= pre + "sharp"@);
                assert(pre + ("sharp"@ + sanitize_chars(rest.skip(1))) =~= out@ + sanitize_chars(
                    rest.skip(1),
                ));
            }
        } else if c.is_alphanumeric() {
            out.push(to_ascii_lower(c));
            proof {
                assert(pre + (seq![ascii_lower(rest[0])] + sanitize_chars(rest.skip(1))) =~= out@
                    + sanitize_chars(rest.skip(1)));
            }
        } else {
        }
        i += 1;
    }
    proof {
        assert(t@.skip(n as int) =~= Seq::<char>::empty());
        assert(out@ + sanitize_chars(t@.skip(n as int)) =~= out@);
    }
    chars_to_string(&out)
}

/// Relies on `std::time::SystemTime::now` and `duration_since`: the
/// current time as whole seconds since the Unix epoch, or 0 if the clock
/// reads earlier than the epoch. Nothing is promised of the value.
#[verifier::external_body]
pub fn unix_timestamp_seconds() -> u64 {
    match std::time::SystemTime::now().duration_since(std::time::UNIX_EPOCH) {
        Ok(d) => d.as_secs(),
        Err(_) => 0,
    }
}

/// The name of a fresh implementation directory: the three sanitized
/// segments and the timestamp, joined by dashes.
pub fn impl_folder_name(lang: &str, harness: &str, model: &str, ts: u64) -> (r: String)
    ensures
        r@ == sanitize_segment_spec(lang@) + "-"@ + sanitize_segment_spec(harness@) + "-"@
            + sanitize_segment_spec(model@) + "-"@ + dec_str(ts as nat),
{
    let mut r = sanitize_segment(lang);
    r.append("-");
    r.append(sanitize_segment(harness).as_str());
    r.append("-");
    r.append(sanitize_segment(model).as_str());
    r.append("-");
    r.append(u64_to_string(ts).as_str());
    r
}

} // verus!
