use vstd::prelude::*;

verus! {

// ---------------------------------------------------------------------------
// Finding a separator, and splitting on it
// ---------------------------------------------------------------------------

/// Index of the first occurrence of `sep` in `s`, or `s.len()` when `s`
/// holds no `sep`.
pub open spec fn first_sep<A>(s: Seq<A>, sep: A) -> int
    decreases s.len(),
{
    if s.len() == 0 {
        0
    } else if s[0] == sep {
        0
    } else {
        1 + first_sep(s.drop_first(), sep)
    }
}

pub proof fn lemma_first_sep<A>(s: Seq<A>, sep: A)
    ensures
        0 <= first_sep(s, sep) <= s.len(),
        forall|k: int| 0 <= k < first_sep(s, sep) ==> s[k] != sep,
        first_sep(s, sep) < s.len() ==> s[first_sep(s, sep)] == sep,
    decreases s.len(),
{
    if s.len() > 0 && s[0] != sep {
        lemma_first_sep(s.drop_first(), sep);
        assert forall|k: int| 0 <= k < first_sep(s, sep) implies s[k] != sep by {
            if k > 0 {
                assert(s.drop_first()[k - 1] == s[k]);
            }
        }
    }
}

/// The converse direction: a position with no `sep` before it and `sep`
/// (or the end) at it is the first occurrence.
pub proof fn lemma_first_sep_is<A>(s: Seq<A>, sep: A, i: int)
    requires
        0 <= i <= s.len(),
        forall|k: int| 0 <= k < i ==> s[k] != sep,
        i < s.len() ==> s[i] == sep,
    ensures
        first_sep(s, sep) == i,
    decreases s.len(),
{
    if s.len() > 0 && s[0] != sep {
        assert forall|k: int| 0 <= k < i - 1 implies s.drop_first()[k] != sep by {
            assert(s.drop_first()[k] == s[k + 1]);
        }
        lemma_first_sep_is(s.drop_first(), sep, i - 1);
    }
}

/// `s` split on single occurrences of `sep`, in the manner of splitting a
/// line on single spaces: the result always has at least one element, and
/// adjacent separators yield empty elements.
pub open spec fn split_on<A>(s: Seq<A>, sep: A) -> Seq<Seq<A>>
    decreases s.len(),
{
    let i = first_sep(s, sep);
    if 0 <= i < s.len() {
        seq![s.take(i)] + split_on(s.skip(i + 1), sep)
    } else {
        seq![s]
    }
}

pub proof fn lemma_split_on_nonempty<A>(s: Seq<A>, sep: A)
    ensures
        split_on(s, sep).len() >= 1,
    decreases s.len(),
{
    let i = first_sep(s, sep);
    lemma_first_sep(s, sep);
    if 0 <= i < s.len() {
        lemma_split_on_nonempty(s.skip(i + 1), sep);
    }
}

// ---------------------------------------------------------------------------
// Decimal numerals
// ---------------------------------------------------------------------------

/// The character for one decimal digit value.
pub open spec fn digit_char(d: int) -> char {
    if d == 0 {
        '0'
    } else if d == 1 {
        '1'
    } else if d == 2 {
        '2'
    } else if d == 3 {
        '3'
    } else if d == 4 {
        '4'
    } else if d == 5 {
        '5'
    } else if d == 6 {
        '6'
    } else if d == 7 {
        '7'
    } else if d == 8 {
        '8'
    } else {
        '9'
    }
}

/// The canonical decimal numeral of `n`: no sign, no leading zero except
/// for `n == 0` itself.
pub open spec fn dec_str(n: nat) -> Seq<char>
    decreases n,
{
    if n < 10 {
        seq![digit_char(n as int)]
    } else {
        dec_str(n / 10) + seq![digit_char((n % 10) as int)]
    }
}

/// Whether `s` is one or more decimal digit characters.
pub open spec fn is_digits(s: Seq<char>) -> bool {
    s.len() > 0 && forall|k: int| 0 <= k < s.len() ==> 48 <= #[trigger] (s[k] as u32) <= 57
}

/// The numeric value of a digit string, read most significant digit
/// first; meaningful under `is_digits`.
pub open spec fn dec_value(s: Seq<char>) -> int
    decreases s.len(),
{
    if s.len() == 0 {
        0
    } else {
        dec_value(s.drop_last()) * 10 + (s.last() as u32 - 48)
    }
}

pub proof fn lemma_dec_str_digits(n: nat)
    ensures
        is_digits(dec_str(n)),
        dec_str(n).len() >= 1,
    decreases n,
{
    if n >= 10 {
        lemma_dec_str_digits(n / 10);
        let s = dec_str(n);
        assert forall|k: int| 0 <= k < s.len() implies 48 <= #[trigger] (s[k] as u32) <= 57 by {
            if k < dec_str(n / 10).len() {
                assert(s[k] == dec_str(n / 10)[k]);
            }
        }
    }
}

pub proof fn lemma_digit_char_value(d: int)
    requires
        0 <= d <= 9,
    ensures
        digit_char(d) as u32 == 48 + d,
{
    if d == 0 {
        assert('0' as u32 == 48);
    } else if d == 1 {
        assert('1' as u32 == 49);
    } else if d == 2 {
        assert('2' as u32 == 50);
    } else if d == 3 {
        assert('3' as u32 == 51);
    } else if d == 4 {
        assert('4' as u32 == 52);
    } else if d == 5 {
        assert('5' as u32 == 53);
    } else if d == 6 {
        assert('6' as u32 == 54);
    } else if d == 7 {
        assert('7' as u32 == 55);
    } else if d == 8 {
        assert('8' as u32 == 56);
    } else {
        assert('9' as u32 == 57);
    }
}

/// Reading the numeral of `n` back gives `n`.
pub proof fn lemma_dec_value_dec_str(n: nat)
    ensures
        dec_value(dec_str(n)) == n,
    decreases n,
{
    if n < 10 {
        lemma_digit_char_value(n as int);
        let s = dec_str(n);
        assert(s =~= seq![digit_char(n as int)]);
        assert(s.drop_last() =~= Seq::<char>::empty());
        assert(s.last() == digit_char(n as int));
        assert(dec_value(s) == dec_value(Seq::<char>::empty()) * 10 + (s.last() as u32 - 48));
    } else {
        lemma_dec_value_dec_str(n / 10);
        lemma_digit_char_value((n % 10) as int);
        let s = dec_str(n);
        assert(s.drop_last() =~= dec_str(n / 10));
        assert(s.last() == digit_char((n % 10) as int));
        assert(dec_value(s) == dec_value(s.drop_last()) * 10 + (s.last() as u32 - 48));
    }
}

pub proof fn lemma_dec_value_nonneg(s: Seq<char>)
    requires
        forall|k: int| 0 <= k < s.len() ==> 48 <= #[trigger] (s[k] as u32) <= 57,
    ensures
        dec_value(s) >= 0,
    decreases s.len(),
{
    if s.len() > 0 {
        assert forall|k: int| 0 <= k < s.drop_last().len() implies 48 <= #[trigger] (
        s.drop_last()[k] as u32) <= 57 by {
            assert(s.drop_last()[k] == s[k]);
        }
        lemma_dec_value_nonneg(s.drop_last());
    }
}

/// One step of reading a numeral left to right.
pub proof fn lemma_dec_value_take_step(s: Seq<char>, i: int)
    requires
        0 <= i < s.len(),
    ensures
        dec_value(s.take(i + 1)) == dec_value(s.take(i)) * 10 + (s[i] as u32 - 48),
{
    assert(s.take(i + 1).drop_last() =~= s.take(i));
    assert(s.take(i + 1).last() == s[i]);
}

/// Reading a prefix of a digit string never exceeds reading all of it.
pub proof fn lemma_dec_value_take_le(s: Seq<char>, j: int)
    requires
        is_digits(s),
        0 <= j <= s.len(),
    ensures
        dec_value(s.take(j)) <= dec_value(s),
    decreases s.len() - j,
{
    if j == s.len() {
        assert(s.take(j) =~= s);
    } else {
        lemma_dec_value_take_step(s, j);
        assert forall|k: int| 0 <= k < s.take(j).len() implies 48 <= #[trigger] (
        s.take(j)[k] as u32) <= 57 by {
            assert(s.take(j)[k] == s[k]);
        }
        lemma_dec_value_nonneg(s.take(j));
        lemma_dec_value_take_le(s, j + 1);
    }
}

// ---------------------------------------------------------------------------
// Executable counterparts
// ---------------------------------------------------------------------------

/// Formats `n` as its decimal numeral.
pub fn u64_to_string(n: u64) -> (s: String)
    ensures
        s@ == dec_str(n as nat),
    decreases n,
{
    proof {
        reveal_strlit("0");
        reveal_strlit("1");
        reveal_strlit("2");
        reveal_strlit("3");
        reveal_strlit("4");
        reveal_strlit("5");
        reveal_strlit("6");
        reveal_strlit("7");
        reveal_strlit("8");
        reveal_strlit("9");
    }
    let d: &str = match n % 10 {
        0 => "0",
        1 => "1",
        2 => "2",
        3 => "3",
        4 => "4",
        5 => "5",
        6 => "6",
        7 => "7",
        8 => "8",
        _ => "9",
    };
    proof {
        assert(d@ =~= seq![digit_char((n % 10) as int)]);
    }
    if n < 10 {
        d.to_owned()
    } else {
        let front = u64_to_string(n / 10);
        front.concat(d)
    }
}

/// What `parse_u64` returns: the numeral's value when `s` is all digits
/// and the value fits in the type, and nothing otherwise.
pub open spec fn spec_parse_u64(s: Seq<char>) -> Option<u64> {
    if is_digits(s) && dec_value(s) <= u64::MAX {
        Some(dec_value(s) as u64)
    } else {
        None
    }
}

/// Reads a decimal numeral; rejects empty input, any non-digit
/// character, and values that overflow the type.
pub fn parse_u64(s: &str) -> (r: Option<u64>)
    ensures
        r == spec_parse_u64(s@),
{
    let len = s.unicode_len();
    if len == 0 {
        return None;
    }
    let mut v: u64 = 0;
    let mut i: usize = 0;
    while i < len
        invariant
            0 < len == s@.len(),
            i <= len,
            forall|k: int| 0 <= k < i ==> 48 <= #[trigger] (s@[k] as u32) <= 57,
            v as int == dec_value(s@.take(i as int)),
        decreases len - i,
    {
        let c = s.get_char(i);
        let cv = c as u32;
        if cv < 48 || cv > 57 {
            return None;
        }
        let d = (cv - 48) as u64;
        proof {
            lemma_dec_value_take_step(s@, i as int);
        }
        let v10 = match v.checked_mul(10) {
            Some(x) => x,
            None => {
                proof {
                    if is_digits(s@) {
                        lemma_dec_value_take_le(s@, i + 1);
                    }
                }
                return None;
            },
        };
        let nv = match v10.checked_add(d) {
            Some(x) => x,
            None => {
                proof {
                    if is_digits(s@) {
                        lemma_dec_value_take_le(s@, i + 1);
                    }
                }
                return None;
            },
        };
        v = nv;
        i = i + 1;
    }
    proof {
        assert(s@.take(len as int) =~= s@);
    }
    Some(v)
}

/// What `parse_len` returns, as `spec_parse_u64` but bounded by the
/// machine's index type.
pub open spec fn spec_parse_len(s: Seq<char>) -> Option<usize> {
    if is_digits(s) && dec_value(s) <= usize::MAX {
        Some(dec_value(s) as usize)
    } else {
        None
    }
}

/// Reads a decimal numeral into the machine's index type.
pub fn parse_len(s: &str) -> (r: Option<usize>)
    ensures
        r == spec_parse_len(s@),
{
    let len = s.unicode_len();
    if len == 0 {
        return None;
    }
    let mut v: usize = 0;
    let mut i: usize = 0;
    while i < len
        invariant
            0 < len == s@.len(),
            i <= len,
            forall|k: int| 0 <= k < i ==> 48 <= #[trigger] (s@[k] as u32) <= 57,
            v as int == dec_value(s@.take(i as int)),
        decreases len - i,
    {
        let c = s.get_char(i);
        let cv = c as u32;
        if cv < 48 || cv > 57 {
            return None;
        }
        let d = (cv - 48) as usize;
        proof {
            lemma_dec_value_take_step(s@, i as int);
        }
        let v10 = match v.checked_mul(10) {
            Some(x) => x,
            None => {
                proof {
                    if is_digits(s@) {
                        lemma_dec_value_take_le(s@, i + 1);
                    }
                }
                return None;
            },
        };
        let nv = match v10.checked_add(d) {
            Some(x) => x,
            None => {
                proof {
                    if is_digits(s@) {
                        lemma_dec_value_take_le(s@, i + 1);
                    }
                }
                return None;
            },
        };
        v = nv;
        i = i + 1;
    }
    proof {
        assert(s@.take(len as int) =~= s@);
    }
    Some(v)
}

// ---------------------------------------------------------------------------
// Tokenizing and line handling
// ---------------------------------------------------------------------------

/// The views of a sequence of owned strings.
pub open spec fn views_of(v: Seq<String>) -> Seq<Seq<char>> {
    v.map_values(|s: String| s@)
}

pub proof fn lemma_views_of_push(v: Seq<String>, t: String)
    ensures
        views_of(v.push(t)) =~= views_of(v).push(t@),
{
}

/// Position of the first `sep` character at or after `from`, or the
/// string's length when there is none.
pub(crate) fn find_char(s: &str, from: usize, sep: char) -> (j: usize)
    requires
        from <= s@.len(),
    ensures
        from <= j <= s@.len(),
        j - from == first_sep(s@.skip(from as int), sep),
{
    let len = s.unicode_len();
    let mut j: usize = from;
    while j < len
        invariant
            from <= j <= len == s@.len(),
            forall|k: int| from <= k < j ==> s@[k] != sep,
        decreases len - j,
    {
        if s.get_char(j) == sep {
            proof {
                let t = s@.skip(from as int);
                assert forall|k: int| 0 <= k < j - from implies t[k] != sep by {
                    assert(t[k] == s@[k + from]);
                }
                assert(t[j - from] == s@[j as int]);
                lemma_first_sep_is(t, sep, j - from);
            }
            return j;
        }
        j = j + 1;
    }
    proof {
        let t = s@.skip(from as int);
        assert forall|k: int| 0 <= k < t.len() implies t[k] != sep by {
            assert(t[k] == s@[k + from]);
        }
        lemma_first_sep_is(t, sep, t.len() as int);
    }
    len
}

/// Splits `s` on single occurrences of `sep`, in the given order; the
/// result always holds at least one (possibly empty) piece.
pub fn split_str(s: &str, sep: char) -> (r: Vec<String>)
    ensures
        views_of(r@) == split_on(s@, sep),
        r@.len() >= 1,
{
    let len = s.unicode_len();
    let mut out: Vec<String> = Vec::new();
    let mut start: usize = 0;
    proof {
        assert(s@.skip(0) =~= s@);
        assert(views_of(out@) =~= Seq::<Seq<char>>::empty());
        assert(views_of(out@) + split_on(s@, sep) =~= split_on(s@, sep));
    }
    loop
        invariant
            start <= len == s@.len(),
            split_on(s@, sep) =~= views_of(out@) + split_on(s@.skip(start as int), sep),
        decreases len - start,
    {
        let j = find_char(s, start, sep);
        let tok = s.substring_char(start, j).to_owned();
        proof {
            let t = s@.skip(start as int);
            lemma_first_sep(t, sep);
            assert(tok@ =~= t.take(j - start));
            lemma_views_of_push(out@, tok);
        }
        if j == len {
            proof {
                let t = s@.skip(start as int);
                assert(first_sep(t, sep) == t.len());
                assert(split_on(t, sep) =~= seq![t]);
                assert(tok@ =~= t);
                assert(views_of(out@.push(tok)) + Seq::<Seq<char>>::empty() =~= views_of(
                    out@.push(tok),
                ));
                lemma_split_on_nonempty(s@, sep);
            }
            let mut out2 = out;
            out2.push(tok);
            proof {
                assert(views_of(out2@) =~= split_on(s@, sep));
            }
            return out2;
        }
        out.push(tok);
        proof {
            let t = s@.skip(start as int);
            assert(split_on(t, sep) =~= seq![t.take(j - start)] + split_on(
                t.skip(j - start + 1),
                sep,
            ));
            assert(t.skip(j - start + 1) =~= s@.skip(j + 1));
        }
        start = j + 1;
    }
}

/// `s` with one trailing line terminator removed: a final `"\r\n"`, or
/// failing that a final `"\n"`; anything else is kept as it stands.
pub open spec fn strip_eol(s: Seq<char>) -> Seq<char> {
    if s.len() >= 2 && s[s.len() - 2] == '\r' && s[s.len() - 1] == '\n' {
        s.take(s.len() - 2)
    } else if s.len() >= 1 && s[s.len() - 1] == '\n' {
        s.take(s.len() - 1)
    } else {
        s
    }
}

/// Removes one trailing line terminator, if present.
pub fn strip_eol_of(s: &str) -> (r: String)
    ensures
        r@ == strip_eol(s@),
{
    let len = s.unicode_len();
    if len >= 2 && s.get_char(len - 2) == '\r' && s.get_char(len - 1) == '\n' {
        let r = s.substring_char(0, len - 2).to_owned();
        proof {
            assert(r@ =~= strip_eol(s@));
        }
        r
    } else if len >= 1 && s.get_char(len - 1) == '\n' {
        let r = s.substring_char(0, len - 1).to_owned();
        proof {
            assert(r@ =~= strip_eol(s@));
        }
        r
    } else {
        s.to_owned()
    }
}

} // verus!
