use vstd::prelude::*;
use vstd::string::{StrSliceExecFns, StringExecFns};

verus! {

/// String equality at the character level.
pub fn str_eq(a: &str, b: &str) -> (r: bool)
    ensures
        r == (a@ == b@),
{
    let sa: String = a.to_owned();
    let sb: String = b.to_owned();
    sa == sb
}

/// The Unicode white-space characters: what `char::is_whitespace` accepts,
/// `str::trim` strips and `str::split_whitespace` separates on.
pub open spec fn is_ws_char(c: char) -> bool {
    let u = c as u32;
    u == 0x9 || u == 0xa || u == 0xb || u == 0xc || u == 0xd || u == 0x20 || u == 0x85 || u == 0xa0
        || u == 0x1680 || (0x2000 <= u && u <= 0x200a) || u == 0x2028 || u == 0x2029 || u == 0x202f
        || u == 0x205f || u == 0x3000
}

pub fn is_ws(c: char) -> (r: bool)
    ensures
        r == is_ws_char(c),
{
    let u = c as u32;
    u == 0x9 || u == 0xa || u == 0xb || u == 0xc || u == 0xd || u == 0x20 || u == 0x85 || u == 0xa0
        || u == 0x1680 || (0x2000 <= u && u <= 0x200a) || u == 0x2028 || u == 0x2029 || u == 0x202f
        || u == 0x205f || u == 0x3000
}

/// The blank-separated words of `s`, in order, with no empty words: what
/// `str::split_whitespace` yields.
pub open spec fn ws_tokens(s: Seq<char>) -> Seq<Seq<char>>
    decreases s.len(),
{
    if s.len() == 0 {
        Seq::<Seq<char>>::empty()
    } else if is_ws_char(s[0]) {
        ws_tokens(s.drop_first())
    } else {
        let rest = ws_tokens(s.drop_first());
        if s.len() > 1 && !is_ws_char(s[1]) {
            seq![seq![s[0]] + rest[0]] + rest.drop_first()
        } else {
            seq![seq![s[0]]] + rest
        }
    }
}

proof fn lemma_ws_tokens_token(s: Seq<char>, j: int)
    requires
        1 <= j <= s.len(),
        forall|k: int| 0 <= k < j ==> !is_ws_char(s[k]),
        j == s.len() || is_ws_char(s[j]),
    ensures
        ws_tokens(s) == seq![s.take(j)] + ws_tokens(s.skip(j)),
    decreases j,
{
    assert(s.drop_first() =~= s.skip(1));
    if j == 1 {
        if s.len() > 1 {
            assert(is_ws_char(s[1]));
        }
        assert(s.take(1) =~= seq![s[0]]);
        assert(ws_tokens(s) =~= seq![s.take(j)] + ws_tokens(s.skip(j)));
    } else {
        let t = s.drop_first();
        assert(forall|k: int| 0 <= k < j - 1 ==> !is_ws_char(t[k]));
        assert(j - 1 == t.len() || is_ws_char(t[j - 1]));
        lemma_ws_tokens_token(t, j - 1);
        assert(seq![s[0]] + t.take(j - 1) =~= s.take(j));
        assert(t.skip(j - 1) =~= s.skip(j));
        let rest = ws_tokens(t);
        assert(rest == seq![t.take(j - 1)] + ws_tokens(s.skip(j)));
        assert(rest[0] == t.take(j - 1));
        assert(rest.drop_first() =~= ws_tokens(s.skip(j)));
        assert(ws_tokens(s) =~= seq![s.take(j)] + ws_tokens(s.skip(j)));
    }
}

/// The blank-separated words of `s`, as owned strings.
pub fn tokenize(s: &str) -> (v: Vec<String>)
    ensures
        v@.map_values(|t: String| t@) == ws_tokens(s@),
{
    let n = s.unicode_len();
    let mut v: Vec<String> = Vec::new();
    let mut i: usize = 0;
    proof {
        assert(s@.skip(0) =~= s@);
        assert(v@.map_values(|t: String| t@) + ws_tokens(s@.skip(0)) =~= ws_tokens(s@));
    }
    while i < n
        invariant
            i <= n,
            n == s@.len(),
            ws_tokens(s@) == v@.map_values(|t: String| t@) + ws_tokens(s@.skip(i as int)),
        decreases n - i,
    {
        let c = s.get_char(i);
        if is_ws(c) {
            proof {
                assert(s@.skip(i as int).drop_first() =~= s@.skip(i as int + 1));
            }
            i += 1;
        } else {
            let start = i;
            i += 1;
            while i < n && !is_ws(s.get_char(i))
                invariant
                    n == s@.len(),
                    start < i <= n,
                    forall|k: int| start <= k < i ==> !is_ws_char(s@[k]),
                decreases n - i,
            {
                i += 1;
            }
            let tok = s.substring_char(start, i).to_owned();
            proof {
                let rem = s@.skip(start as int);
                assert(forall|k: int| 0 <= k < i - start ==> rem[k] == s@[k + start]);
                lemma_ws_tokens_token(rem, i - start);
                assert(rem.take(i - start) =~= s@.subrange(start as int, i as int));
                assert(rem.skip(i - start) =~= s@.skip(i as int));
            }
            let ghost oldmap = v@.map_values(|t: String| t@);
            v.push(tok);
            proof {
                assert(v@.map_values(|t: String| t@) =~= oldmap + seq![tok@]);
                assert(oldmap + (seq![tok@] + ws_tokens(s@.skip(i as int))) =~= (oldmap + seq![
                    tok@,
                ]) + ws_tokens(s@.skip(i as int)));
            }
        }
    }
    proof {
        assert(s@.skip(n as int) =~= Seq::<char>::empty());
        assert(v@.map_values(|t: String| t@) + ws_tokens(s@.skip(n as int)) =~= v@.map_values(
            |t: String| t@,
        ));
    }
    v
}

/// The pieces of `s` between occurrences of `sep`: what `str::split`
/// yields. Always at least one piece; empty pieces are kept.
pub open spec fn split_at_char(s: Seq<char>, sep: char) -> Seq<Seq<char>>
    decreases s.len(),
{
    if s.len() == 0 {
        seq![Seq::<char>::empty()]
    } else if s[0] == sep {
        seq![Seq::<char>::empty()] + split_at_char(s.drop_first(), sep)
    } else {
        let rest = split_at_char(s.drop_first(), sep);
        seq![seq![s[0]] + rest[0]] + rest.drop_first()
    }
}

pub proof fn lemma_split_at_char_nonempty(s: Seq<char>, sep: char)
    ensures
        split_at_char(s, sep).len() >= 1,
    decreases s.len(),
{
    if s.len() != 0 {
        lemma_split_at_char_nonempty(s.drop_first(), sep);
    }
}

proof fn lemma_split_head(s: Seq<char>, sep: char, j: int)
    requires
        0 <= j <= s.len(),
        forall|k: int| 0 <= k < j ==> s[k] != sep,
        j == s.len() || s[j] == sep,
    ensures
        j < s.len() ==> split_at_char(s, sep) == seq![s.take(j)] + split_at_char(
            s.skip(j + 1),
            sep,
        ),
        j == s.len() ==> split_at_char(s, sep) == seq![s.take(j)],
    decreases j,
{
    lemma_split_at_char_nonempty(s, sep);
    if s.len() == 0 {
        assert(s.take(0) =~= Seq::<char>::empty());
        assert(split_at_char(s, sep) =~= seq![s.take(j)]);
    } else if j == 0 {
        if j < s.len() {
            assert(s.drop_first() =~= s.skip(1));
            assert(s.take(0) =~= Seq::<char>::empty());
            assert(split_at_char(s, sep) =~= seq![s.take(j)] + split_at_char(s.skip(j + 1), sep));
        }
    } else {
        let t = s.drop_first();
        assert(t =~= s.skip(1));
        assert(forall|k: int| 0 <= k < j - 1 ==> t[k] != sep);
        lemma_split_head(t, sep, j - 1);
        lemma_split_at_char_nonempty(t, sep);
        let rest = split_at_char(t, sep);
        assert(seq![s[0]] + t.take(j - 1) =~= s.take(j));
        if j < s.len() {
            assert(t.skip(j) =~= s.skip(j + 1));
            assert(rest == seq![t.take(j - 1)] + split_at_char(s.skip(j + 1), sep));
            assert(rest.drop_first() =~= split_at_char(s.skip(j + 1), sep));
            assert(split_at_char(s, sep) =~= seq![s.take(j)] + split_at_char(s.skip(j + 1), sep));
        } else {
            assert(rest == seq![t.take(j - 1)]);
            assert(rest.drop_first() =~= Seq::<Seq<char>>::empty());
            assert(split_at_char(s, sep) =~= seq![s.take(j)]);
        }
    }
}

/// The pieces of `s` between occurrences of `sep`, as owned strings.
pub fn split_str(s: &str, sep: char) -> (v: Vec<String>)
    ensures
        v@.map_values(|t: String| t@) == split_at_char(s@, sep),
{
    let n = s.unicode_len();
    let mut v: Vec<String> = Vec::new();
    let mut start: usize = 0;
    let mut i: usize = 0;
    proof {
        assert(s@.skip(0) =~= s@);
        assert(v@.map_values(|t: String| t@) + split_at_char(s@.skip(0), sep) =~= split_at_char(
            s@,
            sep,
        ));
    }
    while i < n
        invariant
            start <= i <= n,
            n == s@.len(),
            forall|k: int| start <= k < i ==> s@[k] != sep,
            split_at_char(s@, sep) == v@.map_values(|t: String| t@) + split_at_char(
                s@.skip(start as int),
                sep,
            ),
        decreases n - i,
    {
        if s.get_char(i) == sep {
            let piece = s.substring_char(start, i).to_owned();
            proof {
                let rem = s@.skip(start as int);
                assert(forall|k: int| 0 <= k < i - start ==> rem[k] == s@[k + start]);
                assert(rem[i - start] == sep);
                lemma_split_head(rem, sep, i - start);
                assert(rem.take(i - start) =~= s@.subrange(start as int, i as int));
                assert(rem.skip(i - start + 1) =~= s@.skip(i as int + 1));
            }
            let ghost oldmap = v@.map_values(|t: String| t@);
            v.push(piece);
            proof {
                assert(v@.map_values(|t: String| t@) =~= oldmap + seq![piece@]);
                assert(oldmap + (seq![piece@] + split_at_char(s@.skip(i as int + 1), sep)) =~= (
                oldmap + seq![piece@]) + split_at_char(s@.skip(i as int + 1), sep));
            }
            i += 1;
            start = i;
        } else {
            i += 1;
        }
    }
    let piece = s.substring_char(start, n).to_owned();
    proof {
        let rem = s@.skip(start as int);
        assert(forall|k: int| 0 <= k < n - start ==> rem[k] == s@[k + start]);
        lemma_split_head(rem, sep, n - start);
        assert(rem.take(n - start) =~= s@.subrange(start as int, n as int));
    }
    let ghost oldmap = v@.map_values(|t: String| t@);
    v.push(piece);
    proof {
        assert(v@.map_values(|t: String| t@) =~= oldmap + seq![piece@]);
    }
    v
}

/// `s` without its leading blanks.
pub open spec fn trim_start(s: Seq<char>) -> Seq<char>
    decreases s.len(),
{
    if s.len() > 0 && is_ws_char(s[0]) {
        trim_start(s.drop_first())
    } else {
        s
    }
}

/// `s` without its trailing blanks.
pub open spec fn trim_end(s: Seq<char>) -> Seq<char>
    decreases s.len(),
{
    if s.len() > 0 && is_ws_char(s.last()) {
        trim_end(s.drop_last())
    } else {
        s
    }
}

/// `s` without leading or trailing blanks: what `str::trim` yields.
pub open spec fn spec_trim(s: Seq<char>) -> Seq<char> {
    trim_end(trim_start(s))
}

proof fn lemma_trim_start_at(s: Seq<char>, a: int)
    requires
        0 <= a <= s.len(),
        forall|k: int| 0 <= k < a ==> is_ws_char(s[k]),
        a == s.len() || !is_ws_char(s[a]),
    ensures
        trim_start(s) == s.skip(a),
    decreases a,
{
    if a == 0 {
        assert(trim_start(s) =~= s.skip(0));
    } else {
        let t = s.drop_first();
        assert(t =~= s.skip(1));
        assert(forall|k: int| 0 <= k < a - 1 ==> t[k] == s[k + 1]);
        lemma_trim_start_at(t, a - 1);
        assert(t.skip(a - 1) =~= s.skip(a));
    }
}

proof fn lemma_trim_end_at(s: Seq<char>, b: int)
    requires
        0 <= b <= s.len(),
        forall|k: int| b <= k < s.len() ==> is_ws_char(s[k]),
        b == 0 || !is_ws_char(s[b - 1]),
    ensures
        trim_end(s) == s.take(b),
    decreases s.len() - b,
{
    if b == s.len() {
        if s.len() > 0 && is_ws_char(s.last()) {
            assert(false);
        }
        assert(trim_end(s) =~= s.take(b));
    } else {
        let t = s.drop_last();
        assert(is_ws_char(s.last()));
        assert(t =~= s.take(s.len() - 1));
        assert(forall|k: int| b <= k < t.len() ==> t[k] == s[k]);
        lemma_trim_end_at(t, b);
        assert(t.take(b) =~= s.take(b));
    }
}

/// `s` without leading or trailing blanks, as an owned string.
pub fn trim_str(s: &str) -> (r: String)
    ensures
        r@ == spec_trim(s@),
{
    let n = s.unicode_len();
    let mut a: usize = 0;
    while a < n && is_ws(s.get_char(a))
        invariant
            a <= n,
            n == s@.len(),
            forall|k: int| 0 <= k < a ==> is_ws_char(s@[k]),
        decreases n - a,
    {
        a += 1;
    }
    proof {
        lemma_trim_start_at(s@, a as int);
    }
    let mut b: usize = n;
    while b > a && is_ws(s.get_char(b - 1))
        invariant
            a <= b <= n,
            n == s@.len(),
            forall|k: int| b <= k < n ==> is_ws_char(s@[k]),
        decreases b,
    {
        b -= 1;
    }
    let r = s.substring_char(a, b).to_owned();
    proof {
        let t = s@.skip(a as int);
        assert(forall|k: int| 0 <= k < t.len() ==> t[k] == s@[k + a]);
        if b == a {
            if a < n {
                assert(is_ws_char(s@[a as int]));
                assert(false);
            }
            lemma_trim_end_at(t, 0);
        } else {
            lemma_trim_end_at(t, b - a);
        }
        assert(t.take(b - a) =~= s@.subrange(a as int, b as int));
    }
    r
}

/// The position of the first occurrence of `c` in `s`, if any.
pub open spec fn spec_find(s: Seq<char>, c: char) -> Option<int>
    decreases s.len(),
{
    if s.len() == 0 {
        None
    } else if s[0] == c {
        Some(0)
    } else {
        match spec_find(s.drop_first(), c) {
            Some(i) => Some(i + 1),
            None => None,
        }
    }
}

pub proof fn lemma_spec_find(s: Seq<char>, c: char)
    ensures
        match spec_find(s, c) {
            Some(i) => 0 <= i < s.len() && s[i] == c && forall|k: int| 0 <= k < i ==> s[k] != c,
            None => forall|k: int| 0 <= k < s.len() ==> s[k] != c,
        },
    decreases s.len(),
{
    if s.len() > 0 && s[0] != c {
        let t = s.drop_first();
        lemma_spec_find(t, c);
        assert(forall|k: int| 0 <= k < t.len() ==> t[k] == s[k + 1]);
        match spec_find(t, c) {
            Some(i) => {
                assert(s[i + 1] == c);
                assert forall|k: int| 0 <= k < i + 1 implies s[k] != c by {
                    if k > 0 {
                        assert(t[k - 1] != c);
                    }
                }
            },
            None => {
                assert forall|k: int| 0 <= k < s.len() implies s[k] != c by {
                    if k > 0 {
                        assert(t[k - 1] != c);
                    }
                }
            },
        }
    }
}

/// The position of the first occurrence of `c` in `s`, if any.
pub fn find_char(s: &str, c: char) -> (r: Option<usize>)
    ensures
        (r matches Some(i) ==> spec_find(s@, c) == Some(i as int) && i < s@.len() && s@[i as int]
            == c),
        (r is None ==> spec_find(s@, c) is None),
{
    let n = s.unicode_len();
    let mut i: usize = 0;
    while i < n
        invariant
            i <= n,
            n == s@.len(),
            forall|k: int| 0 <= k < i ==> s@[k] != c,
        decreases n - i,
    {
        if s.get_char(i) == c {
            proof {
                lemma_spec_find(s@, c);
                match spec_find(s@, c) {
                    Some(j) => {
                        if j < i {
                            assert(s@[j] != c);
                        }
                        if j > i {
                            assert(s@[i as int] != c);
                        }
                    },
                    None => {
                        assert(s@[i as int] != c);
                    },
                }
            }
            return Some(i);
        }
        i += 1;
    }
    proof {
        lemma_spec_find(s@, c);
        match spec_find(s@, c) {
            Some(j) => {
                assert(s@[j] != c);
            },
            None => {},
        }
    }
    None
}

/// An ASCII decimal digit.
pub open spec fn is_digit_char(c: char) -> bool {
    48 <= c as u32 <= 57
}

/// The value of a digit string, most significant first.
pub open spec fn digits_val(s: Seq<char>) -> int
    decreases s.len(),
{
    if s.len() == 0 {
        0
    } else {
        digits_val(s.drop_last()) * 10 + (s.last() as u32 - 48)
    }
}

pub open spec fn all_digits(s: Seq<char>) -> bool {
    forall|k: int| 0 <= k < s.len() ==> is_digit_char(s[k])
}

/// What `usize::from_str` accepts: an optional leading plus sign, then one
/// or more digits, valuing no more than the machine word holds.
pub open spec fn spec_parse_usize(s: Seq<char>) -> Option<int> {
    let t = if s.len() >= 1 && s[0] == '+' {
        s.drop_first()
    } else {
        s
    };
    if t.len() > 0 && all_digits(t) && digits_val(t) <= usize::MAX {
        Some(digits_val(t))
    } else {
        None
    }
}

/// Parses a decimal integer as `str::parse::<usize>` does.
pub fn parse_usize(s: &str) -> (r: Option<usize>)
    ensures
        r matches Some(v) ==> spec_parse_usize(s@) == Some(v as int),
        r is None ==> spec_parse_usize(s@) is None,
{
    let n = s.unicode_len();
    let mut i: usize = 0;
    if n > 0 && s.get_char(0) == '+' {
        i = 1;
    }
    let ghost start = i as int;
    let ghost t = if s@.len() >= 1 && s@[0] == '+' {
        s@.drop_first()
    } else {
        s@
    };
    proof {
        assert(t =~= s@.skip(start));
    }
    if i == n {
        // nothing after the sign, or empty input
        return None;
    }
    let mut acc: u128 = 0;
    let mut big: bool = false;
    while i < n
        invariant
            0 <= start <= i <= n,
            n == s@.len(),
            t == s@.skip(start),
            t == (if s@.len() >= 1 && s@[0] == '+' {
                s@.drop_first()
            } else {
                s@
            }),
            start <= 1,
            forall|k: int| start <= k < i ==> is_digit_char(s@[k]),
            !big ==> acc as int == digits_val(s@.subrange(start, i as int)) && acc as int
                <= usize::MAX,
            big ==> digits_val(s@.subrange(start, i as int)) > usize::MAX,
        decreases n - i,
    {
        let c = s.get_char(i);
        let u = c as u32;
        if u < 48 || u > 57 {
            proof {
                assert(t[i - start] == s@[i as int]);
                assert(!all_digits(t));
            }
            return None;
        }
        let d = (u - 48) as u128;
        let ghost pre = s@.subrange(start, i as int);
        let ghost post = s@.subrange(start, i as int + 1);
        proof {
            assert(post.drop_last() =~= pre);
            assert(post.last() == s@[i as int]);
        }
        if big {
            proof {
                assert(digits_val(post) == digits_val(pre) * 10 + d);
            }
        } else {
            let next = acc * 10 + d;
            if next > usize::MAX as u128 {
                big = true;
                acc = next;
            } else {
                acc = next;
            }
        }
        i += 1;
    }
    proof {
        assert(s@.subrange(start, n as int) =~= t);
    }
    if big {
        return None;
    }
    proof {
        assert(forall|k: int| 0 <= k < t.len() ==> t[k] == s@[k + start]);
        assert(all_digits(t));
    }
    Some(acc as usize)
}

/// The position of the first occurrence of `b` in `s` at or after `from`.
pub open spec fn spec_find_byte(s: Seq<u8>, from: int, b: u8) -> Option<int>
    decreases s.len() - from,
    when 0 <= from <= s.len()
{
    if from >= s.len() {
        None
    } else if s[from] == b {
        Some(from)
    } else {
        spec_find_byte(s, from + 1, b)
    }
}

pub proof fn lemma_spec_find_byte(s: Seq<u8>, from: int, b: u8)
    requires
        0 <= from <= s.len(),
    ensures
        match spec_find_byte(s, from, b) {
            Some(i) => from <= i < s.len() && s[i] == b && forall|k: int|
                from <= k < i ==> s[k] != b,
            None => forall|k: int| from <= k < s.len() ==> s[k] != b,
        },
    decreases s.len() - from,
{
    if from < s.len() && s[from] != b {
        lemma_spec_find_byte(s, from + 1, b);
        match spec_find_byte(s, from + 1, b) {
            Some(i) => {
                assert forall|k: int| from <= k < i implies s[k] != b by {
                    if k > from {
                        assert(s[k] != b);
                    }
                }
            },
            None => {},
        }
    }
}

/// The position of the first occurrence of `b` in `data` at or after `from`.
pub fn find_byte(data: &[u8], from: usize, b: u8) -> (r: Option<usize>)
    requires
        from <= data@.len(),
    ensures
        (r matches Some(i) ==> spec_find_byte(data@, from as int, b) == Some(i as int) && from
            <= i < data@.len() && data@[i as int] == b),
        (r is None ==> spec_find_byte(data@, from as int, b) is None),
{
    let n = data.len();
    let mut i: usize = from;
    while i < n
        invariant
            from <= i <= n,
            n == data@.len(),
            forall|k: int| from <= k < i ==> data@[k] != b,
        decreases n - i,
    {
        if data[i] == b {
            proof {
                lemma_spec_find_byte(data@, from as int, b);
                match spec_find_byte(data@, from as int, b) {
                    Some(j) => {
                        if j < i {
                            assert(data@[j] != b);
                        }
                        if j > i {
                            assert(data@[i as int] != b);
                        }
                    },
                    None => {
                        assert(data@[i as int] != b);
                    },
                }
            }
            return Some(i);
        }
        i += 1;
    }
    proof {
        lemma_spec_find_byte(data@, from as int, b);
        match spec_find_byte(data@, from as int, b) {
            Some(j) => {
                assert(data@[j] != b);
            },
            None => {},
        }
    }
    None
}

} // verus!
