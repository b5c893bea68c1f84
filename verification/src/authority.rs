//! Authorities: a host plus an optional port, as carried in HTTP request lines
//! (CONNECT and absolute-form URIs) and `Host` headers. The parser accepts
//! `host`, `host:port` and bracketed IPv6 forms such as `[::1]:443`; the port,
//! when present, is one to five decimal digits valued at most 65535 and sits
//! after the last `]` of the text. Every request that reaches upstream
//! dispatch carries such an authority; requests lacking one are answered 400.

use vstd::prelude::*;

verus! {

pub open spec fn is_digit(c: char) -> bool {
    48 <= c as u32 <= 57
}

pub open spec fn digit_val(c: char) -> int {
    c as u32 - 48
}

/// Numeric value of a sequence of decimal digits, most significant first.
pub open spec fn spec_digits_value(s: Seq<char>) -> int
    decreases s.len(),
{
    if s.len() == 0 {
        0
    } else {
        spec_digits_value(s.drop_last()) * 10 + digit_val(s.last())
    }
}

/// The decimal digit character for a value in 0..10.
pub open spec fn digit_char(d: int) -> char {
    ((48 + d) as u8) as char
}

/// Decimal rendering of a non-negative number, most significant digit first.
pub open spec fn spec_dec(n: int) -> Seq<char>
    decreases n,
{
    if n < 10 {
        seq![digit_char(if n < 0 { 0 } else { n })]
    } else {
        spec_dec(n / 10).push(digit_char(n % 10))
    }
}

/// `s[i]` is the colon separating a well-formed port suffix: all that follows
/// is one to five decimal digits valued at most 65535, and no `]` follows.
pub open spec fn is_port_split(s: Seq<char>, i: int) -> bool {
    &&& 0 <= i < s.len()
    &&& s[i] == ':'
    &&& i + 1 < s.len()
    &&& s.len() - i - 1 <= 5
    &&& forall|j: int| i < j < s.len() ==> is_digit(s[j])
    &&& spec_digits_value(s.skip(i + 1)) <= 65535
}

/// `s[i]` is a colon with no `]` anywhere after it.
pub open spec fn colon_after_brackets(s: Seq<char>, i: int) -> bool {
    &&& 0 <= i < s.len()
    &&& s[i] == ':'
    &&& forall|j: int| i < j < s.len() ==> s[j] != ']'
}

/// What parsing an authority yields: the host and the optional port. Text with
/// a well-formed port suffix splits there; text whose last colon after any
/// `]` has no well-formed port suffix is rejected; anything else, if
/// non-empty, is a bare host.
pub open spec fn spec_parse_authority(s: Seq<char>) -> Option<(Seq<char>, Option<u16>)> {
    if s.len() == 0 {
        None
    } else if exists|i: int| is_port_split(s, i) {
        let i = choose|i: int| is_port_split(s, i);
        if i > 0 {
            Some((s.take(i), Some(spec_digits_value(s.skip(i + 1)) as u16)))
        } else {
            None
        }
    } else if exists|i: int| colon_after_brackets(s, i) {
        None
    } else {
        Some((s, None))
    }
}

/// At most one position can split off a well-formed port: everything after a
/// split is a digit, and a second colon is not a digit.
pub proof fn lemma_port_split_unique(s: Seq<char>, i1: int, i2: int)
    requires
        is_port_split(s, i1),
        is_port_split(s, i2),
    ensures
        i1 == i2,
{
    if i1 < i2 {
        assert(is_digit(s[i2]));
        assert(s[i2] as u32 == 58);
    }
    if i2 < i1 {
        assert(is_digit(s[i1]));
        assert(s[i1] as u32 == 58);
    }
}

/// A host plus an optional port.
pub struct Authority {
    pub host: String,
    pub port: Option<u16>,
}

impl Authority {
    /// The textual form: the host, then `:port` when a port is present.
    pub open spec fn spec_str(&self) -> Seq<char> {
        match self.port {
            Option::None => self.host@,
            Option::Some(p) => self.host@ + seq![':'] + spec_dec(p as int),
        }
    }

    pub fn duplicate(&self) -> (r: Self)
        ensures
            r.host@ == self.host@,
            r.port == self.port,
    {
        Authority { host: self.host.clone(), port: self.port }
    }
}

fn digit_str(d: u8) -> (r: &'static str)
    requires
        d < 10,
    ensures
        r@ =~= seq![digit_char(d as int)],
{
    proof {
        reveal_strlit("0");
        reveal_strlit("1");
        reveal_strlit("2");
        reveal_strlit("3");
        reveal_strlit("4");
        reveal_strlit("5");
        reveal_strlit("6");
        reveal_strlit("7");
        reveal_strlit("8");
        reveal_strlit("9");
    }
    match d {
        0 => "0",
        1 => "1",
        2 => "2",
        3 => "3",
        4 => "4",
        5 => "5",
        6 => "6",
        7 => "7",
        8 => "8",
        _ => "9",
    }
}

/// Decimal rendering of a 16-bit number.
pub fn u16_to_string(n: u16) -> (r: String)
    ensures
        r@ == spec_dec(n as int),
    decreases n,
{
    if n < 10 {
        String::from_str(digit_str(n as u8))
    } else {
        proof {
            assert(n / 10 < n) by (nonlinear_arith)
                requires
                    n >= 10,
            ;
        }
        let high = u16_to_string(n / 10);
        let r = high.concat(digit_str((n % 10) as u8));
        proof {
            assert(r@ =~= spec_dec((n / 10) as int).push(digit_char((n % 10) as int)));
        }
        r
    }
}

impl Authority {
    /// The textual `host[:port]` form.
    pub fn to_string(&self) -> (r: String)
        ensures
            r@ == self.spec_str(),
    {
        match self.port {
            Option::None => self.host.clone(),
            Option::Some(p) => {
                proof {
                    reveal_strlit(":");
                }
                let r = self.host.clone().concat(":").concat(u16_to_string(p).as_str());
                proof {
                    assert(r@ =~= self.spec_str());
                }
                r
            },
        }
    }
}

/// The index of the last `:` or `]` in the text, if any.
fn last_colon_or_bracket(s: &str) -> (r: Option<usize>)
    ensures
        match r {
            Option::Some(k) => {
                &&& k < s@.len()
                &&& (s@[k as int] == ':' || s@[k as int] == ']')
                &&& forall|j: int| k < j < s@.len() ==> s@[j] != ':' && s@[j] != ']'
            },
            Option::None => forall|j: int| 0 <= j < s@.len() ==> s@[j] != ':' && s@[j] != ']',
        },
{
    let n = s.unicode_len();
    let mut k: usize = n;
    while k > 0
        invariant
            k <= n,
            forall|j: int| k <= j < n ==> s@[j] != ':' && s@[j] != ']',
        decreases k,
    {
        let c = s.get_char(k - 1);
        if c == ':' || c == ']' {
            return Option::Some(k - 1);
        }
        k = k - 1;
    }
    Option::None
}

/// Parses `host[:port]`; mirrors `spec_parse_authority` exactly.
pub fn parse_authority(s: &str) -> (r: Option<Authority>)
    ensures
        match r {
            Option::Some(a) => {
                &&& spec_parse_authority(s@) matches Option::Some(p)
                &&& a.host@ == p.0
                &&& a.port == p.1
            },
            Option::None => spec_parse_authority(s@) is None,
        },
{
    let n = s.unicode_len();
    if n == 0 {
        return Option::None;
    }
    let c: usize = match last_colon_or_bracket(s) {
        Option::None => {
            // No colon anywhere: the whole text is the host.
            assert forall|i: int| 0 <= i < n implies !is_port_split(s@, i) by {
                assert(s@[i] != ':');
            }
            assert forall|i: int| 0 <= i < n implies !colon_after_brackets(s@, i) by {
                assert(s@[i] != ':');
            }
            return Option::Some(Authority { host: s.to_owned(), port: Option::None });
        },
        Option::Some(k) => {
            if s.get_char(k) == ']' {
                // No colon after the last ']': the whole text is the host.
                assert forall|i: int| 0 <= i < n implies !is_port_split(s@, i) by {
                    if s@[i] == ':' {
                        assert(i < k);
                        assert(!is_digit(s@[k as int]));
                    }
                }
                assert forall|i: int| 0 <= i < n implies !colon_after_brackets(s@, i) by {
                    if s@[i] == ':' {
                        assert(i < k);
                        assert(s@[k as int] == ']');
                    }
                }
                return Option::Some(Authority { host: s.to_owned(), port: Option::None });
            }
            k
        },
    };
    assert(s@[c as int] == ':');
    assert(colon_after_brackets(s@, c as int));
    // A port split, if any, can only sit at `c`: an earlier colon has this
    // colon, which is not a digit, after it; later ones do not exist.
    assert forall|i: int| 0 <= i < n && i != c implies !is_port_split(s@, i) by {
        if s@[i] == ':' {
            assert(i < c);
            assert(!is_digit(s@[c as int]));
        }
    }
    if c == 0 {
        return Option::None;
    }
    let k = c + 1;
    if n - k == 0 || n - k > 5 {
        assert(!is_port_split(s@, c as int));
        return Option::None;
    }
    // Read the digits after the colon.
    let mut v: u32 = 0;
    let mut j: usize = k;
    while j < n
        invariant
            k <= j <= n,
            forall|t: int| k <= t < j ==> is_digit(s@[t]),
            v == spec_digits_value(s@.subrange(k as int, j as int)),
            v <= 99999,
        decreases n - j,
    {
        let ch = s.get_char(j);
        let u = ch as u32;
        if u < 48 || u > 57 {
            assert(!is_digit(s@[j as int]));
            assert(!is_port_split(s@, c as int));
            return Option::None;
        }
        proof {
            assert(s@.subrange(k as int, j + 1 as int).drop_last() =~= s@.subrange(
                k as int,
                j as int,
            ));
            assert(s@.subrange(k as int, j + 1 as int).last() == s@[j as int]);
            assert(v * 10 <= 999990) by (nonlinear_arith)
                requires
                    v <= 99999,
            ;
        }
        v = v * 10 + (u - 48);
        proof {
            assert(v <= 99999) by {
                assert(s@.subrange(k as int, j + 1 as int).len() <= 5);
                lemma_digits_value_bounded5(s@.subrange(k as int, j + 1 as int));
            }
        }
        j = j + 1;
    }
    assert(s@.subrange(k as int, n as int) =~= s@.skip(k as int));
    if v > 65535 {
        assert(!is_port_split(s@, c as int));
        return Option::None;
    }
    assert(is_port_split(s@, c as int));
    proof {
        let w = choose|i: int| is_port_split(s@, i);
        lemma_port_split_unique(s@, w, c as int);
    }
    let host = s.substring_char(0, c);
    assert(host@ =~= s@.take(c as int));
    Option::Some(Authority { host: String::from_str(host), port: Option::Some(v as u16) })
}

pub open spec fn pow10(n: int) -> int
    decreases n,
{
    if n <= 0 {
        1
    } else {
        10 * pow10(n - 1)
    }
}

/// A run of digits is valued below ten to its length.
pub proof fn lemma_digits_value_bound(s: Seq<char>)
    requires
        forall|t: int| 0 <= t < s.len() ==> is_digit(s[t]),
    ensures
        0 <= spec_digits_value(s) < pow10(s.len() as int),
    decreases s.len(),
{
    if s.len() == 0 {
    } else {
        lemma_digits_value_bound(s.drop_last());
        assert(spec_digits_value(s) == spec_digits_value(s.drop_last()) * 10 + digit_val(s.last()));
        assert(spec_digits_value(s.drop_last()) * 10 <= (pow10(s.len() - 1) - 1) * 10)
            by (nonlinear_arith)
            requires
                spec_digits_value(s.drop_last()) <= pow10(s.len() - 1) - 1,
        ;
    }
}

/// A run of at most five digits is valued at most 99999.
pub proof fn lemma_digits_value_bounded5(s: Seq<char>)
    requires
        s.len() <= 5,
        forall|t: int| 0 <= t < s.len() ==> is_digit(s[t]),
    ensures
        0 <= spec_digits_value(s) <= 99999,
{
    lemma_digits_value_bound(s);
    assert(pow10(0) == 1);
    assert(pow10(1) == 10);
    assert(pow10(2) == 100);
    assert(pow10(3) == 1000);
    assert(pow10(4) == 10000);
    assert(pow10(5) == 100000);
    assert(s.len() == 0 || s.len() == 1 || s.len() == 2 || s.len() == 3 || s.len() == 4 || s.len()
        == 5);
}

} // verus!
