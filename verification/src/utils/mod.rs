//! Small self-contained helpers: the identifier codec, link building and
//! the fixed locations of the process-owned data files.
pub mod constant;
pub mod convert;

use vstd::prelude::*;

verus! {

/// Decimal digit as a character.
pub open spec fn spec_digit_char(d: nat) -> char {
    if d == 0 {
        '0'
    } else if d == 1 {
        '1'
    } else if d == 2 {
        '2'
    } else if d == 3 {
        '3'
    } else if d == 4 {
        '4'
    } else if d == 5 {
        '5'
    } else if d == 6 {
        '6'
    } else if d == 7 {
        '7'
    } else if d == 8 {
        '8'
    } else {
        '9'
    }
}

/// Decimal digits of a non-negative value, most significant first.
pub open spec fn spec_dec_digits(n: nat) -> Seq<char>
    decreases n,
{
    if n < 10 {
        seq![spec_digit_char(n)]
    } else {
        spec_dec_digits(n / 10).push(spec_digit_char(n % 10))
    }
}

/// Decimal rendering of a signed value, with a leading minus sign
/// when it is negative.
pub open spec fn spec_dec_i64(v: int) -> Seq<char> {
    if v < 0 {
        seq!['-'].add(spec_dec_digits((-v) as nat))
    } else {
        spec_dec_digits(v as nat)
    }
}

fn digit_str(d: u64) -> (s: &'static str)
    requires
        d < 10,
    ensures
        s@ == seq![spec_digit_char(d as nat)],
{
    let s: &'static str = match d {
        0 => "0",
        1 => "1",
        2 => "2",
        3 => "3",
        4 => "4",
        5 => "5",
        6 => "6",
        7 => "7",
        8 => "8",
        _ => "9",
    };
    proof {
        reveal_strlit("0");
        reveal_strlit("1");
        reveal_strlit("2");
        reveal_strlit("3");
        reveal_strlit("4");
        reveal_strlit("5");
        reveal_strlit("6");
        reveal_strlit("7");
        reveal_strlit("8");
        reveal_strlit("9");
        assert(s@ =~= seq![spec_digit_char(d as nat)]);
    }
    s
}

/// Decimal rendering of an unsigned value.
pub fn u64_to_dec_string(x: u64) -> (s: String)
    ensures
        s@ == spec_dec_digits(x as nat),
    decreases x,
{
    if x < 10 {
        digit_str(x).to_owned()
    } else {
        proof {
            assert(x / 10 < x) by (nonlinear_arith)
                requires
                    x >= 10,
            ;
        }
        let mut s = u64_to_dec_string(x / 10);
        s.append(digit_str(x % 10));
        proof {
            assert(s@ =~= spec_dec_digits(x as nat));
        }
        s
    }
}

/// A character the join trims away at the edges of a path segment.
pub open spec fn spec_trimmable(c: char) -> bool {
    c == '/' || c == ' '
}

/// `p` without its leading trimmable characters.
pub open spec fn spec_trim_front(p: Seq<char>) -> Seq<char>
    decreases p.len(),
{
    if p.len() > 0 && spec_trimmable(p[0]) {
        spec_trim_front(p.drop_first())
    } else {
        p
    }
}

/// `p` without its trailing trimmable characters.
pub open spec fn spec_trim_back(p: Seq<char>) -> Seq<char>
    decreases p.len(),
{
    if p.len() > 0 && spec_trimmable(p.last()) {
        spec_trim_back(p.drop_last())
    } else {
        p
    }
}

/// `p` without trimmable characters at either edge.
pub open spec fn spec_trim(p: Seq<char>) -> Seq<char> {
    spec_trim_back(spec_trim_front(p))
}

/// One address segment joined onto a base: a single slash between
/// them, the segment stripped of surrounding slashes and spaces.
pub open spec fn spec_urljoin(s: Seq<char>, p: Seq<char>) -> Seq<char> {
    (if s.len() > 0 && s.last() == '/' {
        s
    } else {
        s.push('/')
    }) + spec_trim(p)
}

/// A value that can take an address segment onto its end.
pub trait UrlJoin {
    fn urljoin(self, path: &str) -> Self;
}

fn is_trimmable(c: char) -> (r: bool)
    ensures
        r == spec_trimmable(c),
{
    c == '/' || c == ' '
}

impl UrlJoin for String {
    /// Join `path` onto the address, with exactly one slash between.
    fn urljoin(self, path: &str) -> (r: String)
        ensures
            r@ == spec_urljoin(self@, path@),
    {
        let ghost orig = self@;
        let mut s = self;
        let n = s.as_str().unicode_len();
        if n == 0 || s.as_str().get_char(n - 1) != '/' {
            s.append("/");
            proof {
                reveal_strlit("/");
                assert(s@ =~= orig.push('/'));
            }
        }
        let m = path.unicode_len();
        proof {
            assert(path@.subrange(0, m as int) =~= path@);
        }
        let mut start: usize = 0;
        while start < m && is_trimmable(path.get_char(start))
            invariant
                m == path@.len(),
                start <= m,
                spec_trim_front(path@.subrange(start as int, m as int)) == spec_trim_front(
                    path@,
                ),
            decreases m - start,
        {
            proof {
                assert(path@.subrange(start as int, m as int).drop_first() =~= path@.subrange(
                    start as int + 1,
                    m as int,
                ));
            }
            start += 1;
        }
        let mut end: usize = m;
        while end > start && is_trimmable(path.get_char(end - 1))
            invariant
                m == path@.len(),
                start <= end <= m,
                spec_trim_front(path@.subrange(start as int, m as int)) == spec_trim_front(
                    path@,
                ),
                spec_trim_back(path@.subrange(start as int, end as int)) == spec_trim_back(
                    path@.subrange(start as int, m as int),
                ),
            decreases end,
        {
            proof {
                assert(path@.subrange(start as int, end as int).drop_last() =~= path@.subrange(
                    start as int,
                    end as int - 1,
                ));
            }
            end -= 1;
        }
        proof {
            if start < m {
                assert(!spec_trimmable(path@.subrange(start as int, m as int)[0]));
            }
            assert(spec_trim_front(path@.subrange(start as int, m as int)) == path@.subrange(
                start as int,
                m as int,
            ));
            assert(spec_trim(path@) == spec_trim_back(path@.subrange(start as int, m as int)));
            assert(spec_trim(path@) == path@.subrange(start as int, end as int));
        }
        let seg = path.substring_char(start, end);
        s.append(seg);
        proof {
            assert(s@ =~= spec_urljoin(orig, path@));
        }
        s
    }
}

/// The decimal chat identifier as it appears in a public link: the
/// supergroup marker, when it leads, is stripped.
pub open spec fn spec_strip_supergroup(s: Seq<char>) -> Seq<char> {
    if s.len() >= 4 && s.subrange(0, 4) == seq!['-', '1', '0', '0'] {
        s.subrange(4, s.len() as int)
    } else {
        s
    }
}

fn strip_supergroup_prefix(s: String) -> (r: String)
    ensures
        r@ == spec_strip_supergroup(s@),
{
    let n = s.as_str().unicode_len();
    if n >= 4 && s.as_str().get_char(0) == '-' && s.as_str().get_char(1) == '1'
        && s.as_str().get_char(2) == '0' && s.as_str().get_char(3) == '0' {
        proof {
            assert(s@.subrange(0, 4) =~= seq!['-', '1', '0', '0']);
        }
        s.as_str().substring_char(4, n).to_owned()
    } else {
        proof {
            if s@.len() >= 4 && s@.subrange(0, 4) == seq!['-', '1', '0', '0'] {
                assert(s@[0] == '-' && s@[1] == '1' && s@[2] == '0' && s@[3] == '0');
            }
        }
        s
    }
}

/// The link to a message: the chat's invite link when there is one,
/// else the public address built from the chat identifier; the
/// message identifier joined at the end.
pub open spec fn spec_msg_url(link: Option<Seq<char>>, chat_id: int, msg_id: int) -> Seq<char> {
    spec_urljoin(
        match link {
            Some(l) => l,
            None => spec_urljoin(
                spec_urljoin("https://t.me/"@, "c"@),
                spec_strip_supergroup(spec_dec_i64(chat_id)),
            ),
        },
        spec_dec_i64(msg_id),
    )
}

/// Decimal rendering of a signed value.
pub fn i64_to_dec_string(v: i64) -> (s: String)
    ensures
        s@ == spec_dec_i64(v as int),
{
    if v >= 0 {
        u64_to_dec_string(v as u64)
    } else {
        let mag: u64 = (-(v as i128)) as u64;
        let mut s = String::from_str("-");
        s.append(u64_to_dec_string(mag).as_str());
        proof {
            reveal_strlit("-");
            assert(s@ =~= spec_dec_i64(v as int));
        }
        s
    }
}

/// Link to a message, built as the chat platform addresses it: the
/// invite link when one is known, else the public chat address; a
/// private supergroup's identifier loses its marker on the way.
pub fn msg_url(chat_invite_link: Option<&str>, chat_id: i64, msg_id: i32) -> (r: String)
    ensures
        r@ == spec_msg_url(
            match chat_invite_link {
                Some(l) => Some(l@),
                None => None,
            },
            chat_id as int,
            msg_id as int,
        ),
{
    let base: String = match chat_invite_link {
        Some(link) => link.to_owned(),
        None => {
            let stripped = strip_supergroup_prefix(i64_to_dec_string(chat_id));
            crate::utils::constant::TELEGRAM_URL.to_owned().urljoin("c").urljoin(
                stripped.as_str(),
            )
        },
    };
    base.urljoin(i64_to_dec_string(msg_id as i64).as_str())
}

} // verus!
