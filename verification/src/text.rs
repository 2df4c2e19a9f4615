use vstd::prelude::*;
use vstd::string::*;

verus! {

/// The characters of `s`, in order.
pub fn chars_of(s: &str) -> (out: Vec<char>)
    ensures
        out@ == s@,
{
    let mut out: Vec<char> = Vec::new();
    for c in it: s.chars()
        invariant
            out@ == it.seq().take(it.index()),
    {
        out.push(c);
    }
    out
}

/// The characters of `s` from index `from` up to (not including) `to`, as a new `String`.
pub fn substring(s: &str, from: usize, to: usize) -> (out: String)
    requires
        from <= to <= s@.len(),
    ensures
        out@ == s@.subrange(from as int, to as int),
{
    String::from_str(s.substring_char(from, to))
}

/// Unicode `White_Space`: the characters that `char::is_whitespace` accepts.
pub open spec fn is_white_space(c: char) -> bool {
    ||| ('\u{9}' <= c && c <= '\u{d}')
    ||| c == ' '
    ||| c == '\u{85}'
    ||| c == '\u{a0}'
    ||| c == '\u{1680}'
    ||| ('\u{2000}' <= c && c <= '\u{200a}')
    ||| c == '\u{2028}'
    ||| c == '\u{2029}'
    ||| c == '\u{202f}'
    ||| c == '\u{205f}'
    ||| c == '\u{3000}'
}

/// Whether `c` is a Unicode white-space character.
pub fn is_white_space_char(c: char) -> (b: bool)
    ensures
        b == is_white_space(c),
{
    ('\u{9}' <= c && c <= '\u{d}') || c == ' ' || c == '\u{85}' || c == '\u{a0}' || c
        == '\u{1680}' || ('\u{2000}' <= c && c <= '\u{200a}') || c == '\u{2028}' || c
        == '\u{2029}' || c == '\u{202f}' || c == '\u{205f}' || c == '\u{3000}'
}

/// `s` without its trailing white space.
pub open spec fn trim_end_spec(s: Seq<char>) -> Seq<char>
    decreases s.len(),
{
    if s.len() > 0 && is_white_space(s.last()) {
        trim_end_spec(s.drop_last())
    } else {
        s
    }
}

/// `s` without its leading white space.
pub open spec fn trim_start_spec(s: Seq<char>) -> Seq<char>
    decreases s.len(),
{
    if s.len() > 0 && is_white_space(s[0]) {
        trim_start_spec(s.drop_first())
    } else {
        s
    }
}

/// `s` without leading and trailing white space, as `str::trim` gives it.
pub open spec fn trim_spec(s: Seq<char>) -> Seq<char> {
    trim_start_spec(trim_end_spec(s))
}

/// The bounds, within `v[from..to]`, of that range with its leading and trailing
/// white space removed.
pub fn trim_bounds(v: &Vec<char>, from: usize, to: usize) -> (r: (usize, usize))
    requires
        from <= to <= v@.len(),
    ensures
        from <= r.0 <= r.1 <= to,
        v@.subrange(r.0 as int, r.1 as int) == trim_spec(v@.subrange(from as int, to as int)),
{
    let mut e = to;
    while e > from && is_white_space_char(v[e - 1])
        invariant
            from <= e <= to <= v@.len(),
            trim_end_spec(v@.subrange(from as int, to as int)) == trim_end_spec(
                v@.subrange(from as int, e as int),
            ),
        decreases e,
    {
        assert(v@.subrange(from as int, e as int).drop_last() =~= v@.subrange(
            from as int,
            e - 1,
        ));
        e = e - 1;
    }
    assert(trim_end_spec(v@.subrange(from as int, e as int)) == v@.subrange(from as int, e as int));
    let mut b = from;
    while b < e && is_white_space_char(v[b])
        invariant
            from <= b <= e <= to <= v@.len(),
            trim_start_spec(v@.subrange(from as int, e as int)) == trim_start_spec(
                v@.subrange(b as int, e as int),
            ),
        decreases e - b,
    {
        assert(v@.subrange(b as int, e as int).drop_first() =~= v@.subrange(b + 1, e as int));
        b = b + 1;
    }
    (b, e)
}

/// The index of the first `c` in `s`, if any.
pub open spec fn find_char_spec(s: Seq<char>, c: char) -> Option<int>
    decreases s.len(),
{
    if s.len() == 0 {
        None
    } else if s[0] == c {
        Some(0)
    } else {
        match find_char_spec(s.drop_first(), c) {
            Some(i) => Some(i + 1),
            None => None,
        }
    }
}

/// `find_char_spec` gives the first occurrence, and `None` only where there is none.
pub proof fn lemma_find_char(s: Seq<char>, c: char)
    ensures
        match find_char_spec(s, c) {
            Some(i) => 0 <= i < s.len() && s[i] == c && forall|k: int| 0 <= k < i ==> s[k] != c,
            None => forall|k: int| 0 <= k < s.len() ==> s[k] != c,
        },
    decreases s.len(),
{
    if s.len() > 0 && s[0] != c {
        lemma_find_char(s.drop_first(), c);
        assert forall|k: int| 1 <= k < s.len() implies s[k] == s.drop_first()[k - 1] by {}
    }
}

/// Any index that is the first occurrence of `c` is what `find_char_spec` gives.
pub proof fn lemma_find_char_at(s: Seq<char>, c: char, i: int)
    requires
        0 <= i < s.len(),
        s[i] == c,
        forall|k: int| 0 <= k < i ==> s[k] != c,
    ensures
        find_char_spec(s, c) == Some(i),
{
    lemma_find_char(s, c);
}

/// Where `s` holds no `c`, `find_char_spec` gives `None`.
pub proof fn lemma_find_char_none(s: Seq<char>, c: char)
    requires
        forall|k: int| 0 <= k < s.len() ==> s[k] != c,
    ensures
        find_char_spec(s, c) is None,
{
    lemma_find_char(s, c);
}

/// The index of the first `c` in `v[from..to]`, counted from `from`.
pub fn find_char(v: &Vec<char>, c: char, from: usize, to: usize) -> (r: Option<usize>)
    requires
        from <= to <= v@.len(),
    ensures
        match r {
            Some(i) => from <= i < to && find_char_spec(v@.subrange(from as int, to as int), c)
                == Some(i - from),
            None => find_char_spec(v@.subrange(from as int, to as int), c) is None,
        },
{
    let mut i = from;
    while i < to
        invariant
            from <= i <= to <= v@.len(),
            forall|k: int| from <= k < i ==> v@[k] != c,
        decreases to - i,
    {
        if v[i] == c {
            proof {
                lemma_find_char_at(v@.subrange(from as int, to as int), c, i - from);
            }
            return Some(i);
        }
        i = i + 1;
    }
    proof {
        lemma_find_char_none(v@.subrange(from as int, to as int), c);
    }
    None
}

/// The UTF-16 code units of one character.
pub open spec fn utf16_units(c: char) -> Seq<u16> {
    let n = c as int;
    if n < 0x10000 {
        seq![n as u16]
    } else {
        seq![(0xD800 + (n - 0x10000) / 0x400) as u16, (0xDC00 + (n - 0x10000) % 0x400) as u16]
    }
}

/// The UTF-16 encoding of a sequence of characters (what `str::encode_utf16` yields).
pub open spec fn utf16_encode(s: Seq<char>) -> Seq<u16>
    decreases s.len(),
{
    if s.len() == 0 {
        Seq::empty()
    } else {
        utf16_encode(s.drop_last()) + utf16_units(s.last())
    }
}

/// The scalar value of `c`.
fn char_code(c: char) -> (n: u32)
    ensures
        n as int == c as int,
        n <= 0x10FFFF,
{
    c as u32
}

/// `s` in UTF-16 followed by a terminating zero unit: the form Windows API
/// functions take a string in.
pub fn to_wide_null(s: &str) -> (out: Vec<u16>)
    ensures
        out@ == utf16_encode(s@).push(0u16),
{
    let v = chars_of(s);
    let mut out: Vec<u16> = Vec::new();
    let mut i: usize = 0;
    while i < v.len()
        invariant
            i <= v@.len(),
            v@ == s@,
            out@ == utf16_encode(v@.take(i as int)),
        decreases v@.len() - i,
    {
        let c = v[i];
        let n: u32 = char_code(c);
        assert(v@.take(i + 1).drop_last() =~= v@.take(i as int));
        assert(v@.take(i + 1).last() == c);
        if n < 0x10000 {
            assert(utf16_units(c) =~= seq![n as u16]);
            out.push(n as u16);
        } else {
            let m: u32 = n - 0x10000;
            assert(m / 0x400 < 0x400 && m % 0x400 < 0x400);
            let hi: u16 = (0xD800 + m / 0x400) as u16;
            let lo: u16 = (0xDC00 + m % 0x400) as u16;
            assert(utf16_units(c) =~= seq![hi, lo]);
            out.push(hi);
            out.push(lo);
        }
        assert(out@ =~= utf16_encode(v@.take(i + 1)));
        i = i + 1;
    }
    assert(v@.take(v@.len() as int) =~= v@);
    out.push(0u16);
    out
}

/// `s` without its trailing NUL characters.
pub open spec fn trim_end_nul_spec(s: Seq<char>) -> Seq<char>
    decreases s.len(),
{
    if s.len() > 0 && s.last() == '\0' {
        trim_end_nul_spec(s.drop_last())
    } else {
        s
    }
}

/// `s` with its trailing NUL characters removed (`trim_end_matches('\0')`).
pub fn trim_end_nuls(s: &str) -> (out: String)
    ensures
        out@ == trim_end_nul_spec(s@),
{
    let v = chars_of(s);
    let mut e = v.len();
    assert(v@.take(v@.len() as int) =~= v@);
    while e > 0 && v[e - 1] == '\0'
        invariant
            e <= v@.len(),
            v@ == s@,
            trim_end_nul_spec(s@) == trim_end_nul_spec(v@.take(e as int)),
        decreases e,
    {
        assert(v@.take(e as int).drop_last() =~= v@.take(e - 1));
        e = e - 1;
    }
    assert(v@.take(v@.len() as int) =~= v@);
    substring(s, 0, e)
}


/// What `str::strip_prefix` gives: the rest of `s` where `s` starts with `prefix`.
pub open spec fn strip_prefix_spec(s: Seq<char>, prefix: Seq<char>) -> Option<Seq<char>> {
    if prefix.len() <= s.len() && s.take(prefix.len() as int) == prefix {
        Some(s.skip(prefix.len() as int))
    } else {
        None
    }
}

/// `s` without `prefix`, or `None` where `s` does not start with `prefix`.
pub fn strip_prefix(s: &str, prefix: &str) -> (r: Option<String>)
    ensures
        match r {
            Some(rest) => strip_prefix_spec(s@, prefix@) == Some(rest@),
            None => strip_prefix_spec(s@, prefix@) is None,
        },
{
    let v = chars_of(s);
    let p = chars_of(prefix);
    if p.len() > v.len() {
        return None;
    }
    let mut i: usize = 0;
    while i < p.len()
        invariant
            i <= p@.len() <= v@.len(),
            v@ == s@,
            p@ == prefix@,
            forall|k: int| 0 <= k < i ==> v@[k] == p@[k],
        decreases p@.len() - i,
    {
        if v[i] != p[i] {
            assert(s@.take(prefix@.len() as int)[i as int] != prefix@[i as int]);
            return None;
        }
        i = i + 1;
    }
    assert(s@.take(prefix@.len() as int) =~= prefix@);
    Some(substring(s, p.len(), v.len()))
}


/// The scalar value of `c`, with ASCII upper-case letters mapped to lower case.
pub open spec fn ascii_fold(c: char) -> int {
    if 'A' <= c && c <= 'Z' {
        c as int + 32
    } else {
        c as int
    }
}

/// Whether two texts are equal once ASCII letters are compared without case (what
/// `eq_ignore_ascii_case` decides).
pub open spec fn eq_ignore_ascii_case_spec(a: Seq<char>, b: Seq<char>) -> bool {
    a.len() == b.len() && forall|i: int| 0 <= i < a.len() ==> ascii_fold(a[i]) == ascii_fold(b[i])
}

/// `ascii_fold` of `c`, computed.
fn ascii_fold_code(c: char) -> (n: u32)
    ensures
        n as int == ascii_fold(c),
{
    let code = char_code(c);
    if 'A' <= c && c <= 'Z' {
        code + 32
    } else {
        code
    }
}

/// Whether `a` and `b` are equal ignoring the case of ASCII letters.
pub fn eq_ignore_ascii_case(a: &str, b: &str) -> (r: bool)
    ensures
        r == eq_ignore_ascii_case_spec(a@, b@),
{
    let va = chars_of(a);
    let vb = chars_of(b);
    if va.len() != vb.len() {
        return false;
    }
    let mut i: usize = 0;
    while i < va.len()
        invariant
            i <= va@.len() == vb@.len(),
            va@ == a@,
            vb@ == b@,
            forall|k: int| 0 <= k < i ==> ascii_fold(va@[k]) == ascii_fold(vb@[k]),
        decreases va@.len() - i,
    {
        if ascii_fold_code(va[i]) != ascii_fold_code(vb[i]) {
            return false;
        }
        i = i + 1;
    }
    true
}


/// A NUL after a text is one zero code unit after its UTF-16, and trimming
/// trailing NULs removes it again.
pub proof fn lemma_utf16_nul_terminated(s: Seq<char>)
    ensures
        utf16_encode(s).push(0u16) == utf16_encode(s.push('\0')),
        trim_end_nul_spec(s.push('\0')) == trim_end_nul_spec(s),
{
    assert(s.push('\0').drop_last() =~= s);
    assert(('\0' as int) == 0);
    assert(utf16_units('\0') =~= seq![0u16]);
}


/// A UTF-16 code unit that opens a surrogate pair.
pub open spec fn is_high_surrogate(u: u16) -> bool {
    0xD800 <= u && u <= 0xDBFF
}

/// A UTF-16 code unit that closes a surrogate pair.
pub open spec fn is_low_surrogate(u: u16) -> bool {
    0xDC00 <= u && u <= 0xDFFF
}

/// UTF-16 decoded with each unpaired surrogate replaced by U+FFFD (what
/// `String::from_utf16_lossy` gives).
pub open spec fn utf16_decode_lossy(u: Seq<u16>) -> Seq<char>
    decreases u.len(),
{
    if u.len() == 0 {
        Seq::empty()
    } else if u.len() >= 2 && is_high_surrogate(u[0]) && is_low_surrogate(u[1]) {
        seq![(0x10000 + (u[0] - 0xD800) * 0x400 + (u[1] - 0xDC00)) as char] + utf16_decode_lossy(
            u.skip(2),
        )
    } else if 0xD800 <= u[0] && u[0] <= 0xDFFF {
        seq!['\u{FFFD}'] + utf16_decode_lossy(u.skip(1))
    } else {
        seq![u[0] as char] + utf16_decode_lossy(u.skip(1))
    }
}

/// Whether `n` is a Unicode scalar value.
pub open spec fn is_scalar_value(n: int) -> bool {
    0 <= n <= 0x10FFFF && !(0xD800 <= n <= 0xDFFF)
}

/// `char::from_u32`: the character with scalar value `n`, or `None` where `n` is
/// not a scalar value.
#[verifier::external_body]
fn char_from_u32(n: u32) -> (r: Option<char>)
    ensures
        r == (if is_scalar_value(n as int) {
            Some(n as char)
        } else {
            None::<char>
        }),
{
    char::from_u32(n)
}

/// `String::push`: appends `c`.
#[verifier::external_body]
fn push_char(s: &mut String, c: char)
    ensures
        final(s)@ == old(s)@.push(c),
{
    s.push(c)
}

/// `units` decoded from UTF-16, each unpaired surrogate replaced by U+FFFD (the
/// `String::from_utf16_lossy` of the standard library).
pub fn utf16_lossy_to_string(units: &[u16]) -> (s: String)
    ensures
        s@ == utf16_decode_lossy(units@),
{
    let mut s = String::new();
    let mut i: usize = 0;
    let n = units.len();
    assert(units@.skip(0) =~= units@);
    while i < n
        invariant
            n == units@.len(),
            i <= n,
            s@ + utf16_decode_lossy(units@.skip(i as int)) == utf16_decode_lossy(units@),
        decreases n - i,
    {
        let ghost rest = units@.skip(i as int);
        let a = units[i];
        if i + 1 < n && 0xD800 <= a && a <= 0xDBFF && 0xDC00 <= units[i + 1] && units[i + 1]
            <= 0xDFFF {
            let b = units[i + 1];
            let code: u32 = 0x10000 + (a as u32 - 0xD800) * 0x400 + (b as u32 - 0xDC00);
            assert(rest[0] == a && rest[1] == b);
            assert(rest.skip(2) =~= units@.skip(i + 2));
            let c = char_from_u32(code).unwrap();
            push_char(&mut s, c);
            assert(s@ + utf16_decode_lossy(units@.skip(i + 2)) =~= utf16_decode_lossy(units@));
            i = i + 2;
        } else {
            assert(rest[0] == a);
            assert(rest.skip(1) =~= units@.skip(i + 1));
            if 0xD800 <= a && a <= 0xDFFF {
                push_char(&mut s, '\u{FFFD}');
            } else {
                let c = char_from_u32(a as u32).unwrap();
                push_char(&mut s, c);
            }
            assert(s@ + utf16_decode_lossy(units@.skip(i + 1)) =~= utf16_decode_lossy(units@));
            i = i + 1;
        }
    }
    assert(units@.skip(n as int) =~= Seq::<u16>::empty());
    assert(s@ + Seq::<char>::empty() =~= s@);
    s
}

/// Each code unit gives at most one character.
pub proof fn lemma_utf16_decode_len(u: Seq<u16>)
    ensures
        utf16_decode_lossy(u).len() <= u.len(),
    decreases u.len(),
{
    if u.len() >= 2 && is_high_surrogate(u[0]) && is_low_surrogate(u[1]) {
        lemma_utf16_decode_len(u.skip(2));
    } else if u.len() > 0 {
        lemma_utf16_decode_len(u.skip(1));
    }
}

/// Decoding the units of one character, then more, gives that character first.
proof fn lemma_utf16_decode_units(c: char, rest: Seq<u16>)
    ensures
        utf16_decode_lossy(utf16_units(c) + rest) == seq![c] + utf16_decode_lossy(rest),
{
    let n = c as int;
    let u = utf16_units(c) + rest;
    if n < 0x10000 {
        assert(u[0] as int == n);
        assert(u.skip(1) =~= rest);
        assert((n as char) == c);
    } else {
        let m = n - 0x10000;
        assert(0 <= m / 0x400 < 0x400);
        assert(0 <= m % 0x400 < 0x400);
        assert(u[0] as int == 0xD800 + m / 0x400);
        assert(u[1] as int == 0xDC00 + m % 0x400);
        assert(u.skip(2) =~= rest);
        assert(0x10000 + (m / 0x400) * 0x400 + m % 0x400 == n);
        assert(((0x10000 + (u[0] - 0xD800) * 0x400 + (u[1] - 0xDC00)) as char) == c);
    }
}

/// The UTF-16 of a text is the units of its first character, then the rest.
proof fn lemma_utf16_encode_first(t: Seq<char>)
    requires
        t.len() > 0,
    ensures
        utf16_encode(t) == utf16_units(t[0]) + utf16_encode(t.drop_first()),
    decreases t.len(),
{
    if t.len() == 1 {
        assert(t.drop_last() =~= Seq::<char>::empty());
        assert(t.drop_first() =~= Seq::<char>::empty());
        assert(utf16_encode(t.drop_first()) =~= Seq::<u16>::empty());
        assert(utf16_units(t[0]) + Seq::<u16>::empty() =~= utf16_units(t[0]));
    } else {
        lemma_utf16_encode_first(t.drop_last());
        assert(t.drop_last().drop_first() =~= t.drop_first().drop_last());
        assert(t.drop_first().last() == t.last());
        assert(t.drop_last()[0] == t[0]);
        assert(utf16_encode(t) =~= utf16_units(t[0]) + utf16_encode(t.drop_first()));
    }
}

/// Decoding the UTF-16 of a text gives the text back.
pub proof fn lemma_utf16_round_trip(t: Seq<char>)
    ensures
        utf16_decode_lossy(utf16_encode(t)) == t,
    decreases t.len(),
{
    if t.len() == 0 {
        assert(utf16_encode(t) =~= Seq::<u16>::empty());
    } else {
        lemma_utf16_encode_first(t);
        lemma_utf16_decode_units(t[0], utf16_encode(t.drop_first()));
        lemma_utf16_round_trip(t.drop_first());
        assert(seq![t[0]] + t.drop_first() =~= t);
    }
}

/// Trimming trailing NULs never lengthens a text.
pub proof fn lemma_trim_end_nul_len(s: Seq<char>)
    ensures
        trim_end_nul_spec(s).len() <= s.len(),
    decreases s.len(),
{
    if s.len() > 0 && s.last() == '\0' {
        lemma_trim_end_nul_len(s.drop_last());
    }
}


/// `k` NUL characters.
pub open spec fn nul_chars(k: nat) -> Seq<char> {
    Seq::new(k, |i: int| '\0')
}

/// `k` zero code units.
pub open spec fn zero_units(k: nat) -> Seq<u16> {
    Seq::new(k, |i: int| 0u16)
}

/// NULs after a text are zero units after its UTF-16.
pub proof fn lemma_utf16_encode_nuls(t: Seq<char>, k: nat)
    ensures
        utf16_encode(t + nul_chars(k)) == utf16_encode(t) + zero_units(k),
    decreases k,
{
    if k == 0 {
        assert(t + nul_chars(0) =~= t);
        assert(utf16_encode(t) + zero_units(0) =~= utf16_encode(t));
    } else {
        let k1 = (k - 1) as nat;
        lemma_utf16_encode_nuls(t, k1);
        let x = t + nul_chars(k);
        assert(x.drop_last() =~= t + nul_chars(k1));
        assert(x.last() == '\0');
        assert(('\0' as int) == 0);
        assert(utf16_units('\0') =~= seq![0u16]);
        assert(utf16_encode(x) =~= utf16_encode(t) + zero_units(k));
    }
}

/// Trimming trailing NULs from a text that does not end in one, followed by NULs,
/// gives the text.
pub proof fn lemma_trim_end_nul_padding(t: Seq<char>, k: nat)
    requires
        t.len() == 0 || t.last() != '\0',
    ensures
        trim_end_nul_spec(t + nul_chars(k)) == t,
    decreases k,
{
    if k == 0 {
        assert(t + nul_chars(0) =~= t);
    } else {
        let k1 = (k - 1) as nat;
        lemma_trim_end_nul_padding(t, k1);
        let x = t + nul_chars(k);
        assert(x.drop_last() =~= t + nul_chars(k1));
    }
}


/// A character below U+10000 fits a code unit unchanged.
proof fn lemma_bmp_char_unit(c: char)
    requires
        (c as int) < 0x10000,
    ensures
        ((c as int) as u16) as int == c as int,
{
}

/// A code unit outside the surrogates is a scalar value.
proof fn lemma_unit_char(x: u16)
    requires
        !(0xD800 <= x <= 0xDFFF),
    ensures
        ((x as int) as char) as int == x as int,
{
}

/// The UTF-16 of a text of characters below U+10000 is, unit for unit, the scalar
/// values of its characters.
pub proof fn lemma_utf16_encode_bmp(s: Seq<char>)
    requires
        forall|i: int| 0 <= i < s.len() ==> (s[i] as int) < 0x10000,
    ensures
        utf16_encode(s) == s.map_values(|c: char| (c as int) as u16),
        forall|i: int| 0 <= i < s.len() ==> utf16_encode(s)[i] as int == s[i] as int,
    decreases s.len(),
{
    if s.len() > 0 {
        lemma_utf16_encode_bmp(s.drop_last());
        assert(utf16_encode(s) =~= s.map_values(|c: char| (c as int) as u16));
    } else {
        assert(utf16_encode(s) =~= s.map_values(|c: char| (c as int) as u16));
    }
    assert forall|i: int| 0 <= i < s.len() implies utf16_encode(s)[i] as int == s[i] as int by {
        assert(utf16_encode(s)[i] == (s[i] as int) as u16);
        lemma_bmp_char_unit(s[i]);
    }
}

/// A character from U+10000 up is two units: a high surrogate and a low surrogate
/// whose ten-bit halves, above U+10000, make up its scalar value.
pub proof fn lemma_utf16_encode_astral(c: char)
    requires
        c as int >= 0x10000,
    ensures
        utf16_encode(seq![c]).len() == 2,
        0xD800 <= utf16_encode(seq![c])[0] < 0xDC00,
        0xDC00 <= utf16_encode(seq![c])[1] < 0xE000,
        0x10000 + (utf16_encode(seq![c])[0] - 0xD800) * 0x400 + (utf16_encode(seq![c])[1] - 0xDC00)
            == c as int,
{
    assert(seq![c].drop_last() =~= Seq::<char>::empty());
    assert(seq![c].last() == c);
    assert(utf16_encode(Seq::<char>::empty()) =~= Seq::<u16>::empty());
    assert(utf16_encode(seq![c]) =~= utf16_units(c));
    let m = c as int - 0x10000;
    assert(0x10000 + (m / 0x400) * 0x400 + m % 0x400 == c as int);
}

/// Units with no surrogate among them decode, unit for unit, to the characters with
/// those scalar values.
pub proof fn lemma_utf16_decode_bmp(u: Seq<u16>)
    requires
        forall|i: int| 0 <= i < u.len() ==> !(0xD800 <= #[trigger] u[i] <= 0xDFFF),
    ensures
        utf16_decode_lossy(u) == u.map_values(|x: u16| (x as int) as char),
        forall|i: int| 0 <= i < u.len() ==> utf16_decode_lossy(u)[i] as int == u[i] as int,
    decreases u.len(),
{
    if u.len() > 0 {
        lemma_utf16_decode_bmp(u.skip(1));
        assert(utf16_decode_lossy(u) =~= u.map_values(|x: u16| (x as int) as char));
    } else {
        assert(utf16_decode_lossy(u) =~= u.map_values(|x: u16| (x as int) as char));
    }
    assert forall|i: int| 0 <= i < u.len() implies utf16_decode_lossy(u)[i] as int == u[i] as int by {
        assert(utf16_decode_lossy(u)[i] == (u[i] as int) as char);
        lemma_unit_char(u[i]);
    }
}

/// A surrogate unit that is not the start of a surrogate pair decodes to U+FFFD.
pub proof fn lemma_utf16_decode_unpaired(u: Seq<u16>)
    requires
        u.len() > 0,
        0xD800 <= u[0] <= 0xDFFF,
        !(u.len() >= 2 && is_high_surrogate(u[0]) && is_low_surrogate(u[1])),
    ensures
        utf16_decode_lossy(u) == seq!['\u{FFFD}'] + utf16_decode_lossy(u.skip(1)),
{
}

} // verus!
