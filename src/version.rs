use vstd::prelude::*;
use vstd::string::StrSliceExecFns;

verus! {

/// A semantic version, ordered by major, then minor, then patch.
#[derive(PartialEq, Eq, Structural, Clone, Copy, Debug)]
pub struct Version {
    pub major: u64,
    pub minor: u64,
    pub patch: u64,
}

impl Version {
    /// Strict semantic-version precedence.
    pub open spec fn lt(self, other: Version) -> bool {
        self.major < other.major
            || (self.major == other.major && self.minor < other.minor)
            || (self.major == other.major && self.minor == other.minor && self.patch < other.patch)
    }

    pub fn new(major: u64, minor: u64, patch: u64) -> (r: Version)
        ensures
            r == (Version { major, minor, patch }),
    {
        Version { major, minor, patch }
    }

    /// Whether `self` precedes `other`.
    pub fn less_than(&self, other: &Version) -> (r: bool)
        ensures
            r == self.lt(*other),
    {
        self.major < other.major || (self.major == other.major && self.minor < other.minor)
            || (self.major == other.major && self.minor == other.minor && self.patch
            < other.patch)
    }
}

pub open spec fn is_digit(c: char) -> bool {
    '0' <= c && c <= '9'
}

/// The number that a string of decimal digits denotes.
pub open spec fn digits_value(s: Seq<char>) -> nat
    decreases s.len(),
{
    if s.len() == 0 {
        0
    } else {
        digits_value(s.drop_last()) * 10 + (s.last() as nat - '0' as nat) as nat
    }
}

/// Decimal digits, at least one, with no leading zero unless the numeral is `0` itself.
pub open spec fn is_numeral(s: Seq<char>) -> bool {
    &&& s.len() > 0
    &&& forall|i: int| 0 <= i < s.len() ==> is_digit(#[trigger] s[i])
    &&& s[0] == '0' ==> s.len() == 1
}

/// `s` spells `v` as `major.minor.patch`.
pub open spec fn spells(s: Seq<char>, v: Version) -> bool {
    exists|i: int, j: int|
        0 <= i < j < s.len() && s[i] == '.' && s[j] == '.' && #[trigger] spells_at(s, v, i, j)
}

pub open spec fn spells_at(s: Seq<char>, v: Version, i: int, j: int) -> bool {
    &&& is_numeral(s.subrange(0, i))
    &&& is_numeral(s.subrange(i + 1, j))
    &&& is_numeral(s.subrange(j + 1, s.len() as int))
    &&& digits_value(s.subrange(0, i)) == v.major
    &&& digits_value(s.subrange(i + 1, j)) == v.minor
    &&& digits_value(s.subrange(j + 1, s.len() as int)) == v.patch
}

/// Appending digits never makes a numeral's value smaller.
proof fn lemma_digits_value_grows(s: Seq<char>, k: int)
    requires
        0 <= k <= s.len(),
        forall|i: int| 0 <= i < s.len() ==> is_digit(#[trigger] s[i]),
    ensures
        digits_value(s.subrange(0, k)) <= digits_value(s),
    decreases s.len() - k,
{
    if k < s.len() {
        lemma_digits_value_grows(s.drop_last(), k);
        assert(s.drop_last().subrange(0, k) =~= s.subrange(0, k));
    } else {
        assert(s.subrange(0, k) =~= s);
    }
}

/// The first dot at or after `from`, or the length of `s` if there is none.
fn find_dot(s: &str, len: usize, from: usize) -> (r: usize)
    requires
        len == s@.len(),
        from <= len,
    ensures
        from <= r <= len,
        r < len ==> s@[r as int] == '.',
        forall|k: int| from <= k < r ==> s@[k] != '.',
{
    let mut k = from;
    while k < len
        invariant
            len == s@.len(),
            from <= k <= len,
            forall|m: int| from <= m < k ==> s@[m] != '.',
        decreases len - k,
    {
        if s.get_char(k) == '.' {
            return k;
        }
        k = k + 1;
    }
    k
}

/// The value of the numeral `s[from..to]`, if it is one and its value fits in a `u64`.
fn parse_numeral(s: &str, from: usize, to: usize) -> (r: Option<u64>)
    requires
        from <= to <= s@.len(),
    ensures
        r matches Some(n) ==> is_numeral(s@.subrange(from as int, to as int)) && digits_value(
            s@.subrange(from as int, to as int),
        ) == n,
        r is None ==> !is_numeral(s@.subrange(from as int, to as int)) || digits_value(
            s@.subrange(from as int, to as int),
        ) > u64::MAX,
{
    let ghost part = s@.subrange(from as int, to as int);
    if from == to {
        return None;
    }
    if s.get_char(from) == '0' && to - from > 1 {
        assert(part[0] == '0');
        return None;
    }
    let mut value: u64 = 0;
    let mut k = from;
    while k < to
        invariant
            from <= k <= to <= s@.len(),
            part == s@.subrange(from as int, to as int),
            forall|m: int| 0 <= m < k - from ==> is_digit(#[trigger] part[m]),
            value == digits_value(part.subrange(0, k - from)),
        decreases to - k,
    {
        let c = s.get_char(k);
        assert(c == part[k - from]);
        if !('0' <= c && c <= '9') {
            return None;
        }
        let d = (c as u32 - '0' as u32) as u64;
        let ghost next = part.subrange(0, k - from + 1);
        assert(next.drop_last() =~= part.subrange(0, k - from));
        if value > (u64::MAX - d) / 10 {
            proof {
                assert forall|m: int| 0 <= m < next.len() implies is_digit(#[trigger] next[m]) by {
                    assert(next[m] == part[m]);
                }
                assert(digits_value(next) > u64::MAX) by (nonlinear_arith)
                    requires
                        value > (u64::MAX - d) / 10,
                        digits_value(next) == value * 10 + d,
                        d <= 9,
                ;
                if forall|m: int| 0 <= m < part.len() ==> is_digit(#[trigger] part[m]) {
                    lemma_digits_value_grows(part, k - from + 1);
                }
            }
            return None;
        }
        value = value * 10 + d;
        k = k + 1;
    }
    assert(part.subrange(0, k - from) =~= part);
    Some(value)
}

impl Version {
    /// Reads `major.minor.patch`: three decimal numerals without leading zeros, each fitting
    /// in a `u64`.
    pub fn parse(s: &str) -> (r: Option<Version>)
        ensures
            r matches Some(v) ==> spells(s@, v),
            r is None ==> forall|v: Version| !spells(s@, v),
    {
        let len = s.unicode_len();
        let i = find_dot(s, len, 0);
        if i == len {
            proof {
                lemma_no_spelling_without_dots(s@, i as int, len as int);
            }
            return None;
        }
        let j = find_dot(s, len, i + 1);
        if j == len {
            proof {
                lemma_no_spelling_without_dots(s@, i as int, len as int);
            }
            return None;
        }
        proof {
            lemma_spelling_dots(s@, i as int, j as int);
        }
        let major = parse_numeral(s, 0, i);
        let minor = parse_numeral(s, i + 1, j);
        let patch = parse_numeral(s, j + 1, len);
        match (major, minor, patch) {
            (Some(a), Some(b), Some(c)) => {
                let v = Version { major: a, minor: b, patch: c };
                assert(spells_at(s@, v, i as int, j as int));
                Some(v)
            },
            _ => None,
        }
    }
}

/// A spelling needs two dots: with none before `i`, and none between `i` and `n` but at `i`,
/// no version is spelled.
proof fn lemma_no_spelling_without_dots(s: Seq<char>, i: int, n: int)
    requires
        n == s.len(),
        0 <= i <= n,
        forall|k: int| 0 <= k < i ==> s[k] != '.',
        forall|k: int| i < k < n ==> s[k] != '.',
    ensures
        forall|v: Version| !spells(s, v),
{
    assert forall|v: Version| !spells(s, v) by {
        if spells(s, v) {
            let (a, b) = choose|a: int, b: int|
                0 <= a < b < s.len() && s[a] == '.' && s[b] == '.' && #[trigger] spells_at(
                    s,
                    v,
                    a,
                    b,
                );
            assert(a >= i);
        }
    }
}

/// In a spelling, the dots are the first dot and the first dot after it.
proof fn lemma_spelling_dots(s: Seq<char>, i: int, j: int)
    requires
        0 <= i < j < s.len(),
        s[i] == '.',
        s[j] == '.',
        forall|k: int| 0 <= k < i ==> s[k] != '.',
        forall|k: int| i + 1 <= k < j ==> s[k] != '.',
    ensures
        forall|v: Version| spells(s, v) ==> spells_at(s, v, i, j),
{
    assert forall|v: Version| spells(s, v) implies spells_at(s, v, i, j) by {
        let (a, b) = choose|a: int, b: int|
            0 <= a < b < s.len() && s[a] == '.' && s[b] == '.' && #[trigger] spells_at(s, v, a, b);
        if a < i {
            assert(s.subrange(0, i)[a] == s[a]);
            assert(false);
        }
        if a > i {
            assert(s.subrange(0, a)[i] == s[i]);
            assert(is_digit(s.subrange(0, a)[i]));
        }
        if b < j {
            assert(s.subrange(a + 1, j)[b - a - 1] == s[b]);
        }
        if b > j {
            assert(s.subrange(a + 1, b)[j - a - 1] == s[j]);
            assert(is_digit(s.subrange(a + 1, b)[j - a - 1]));
        }
    }
}

} // verus!
