//! Character-level building blocks shared by the display and matching logic.
use vstd::prelude::*;

verus! {

/// Unicode `White_Space`, the set std's `char::is_whitespace` tests: tab to carriage return,
/// space, next line, no-break space, ogham space mark, the spaces from en quad to hair space,
/// line and paragraph separators, narrow no-break space, medium mathematical space and
/// ideographic space.
pub open spec fn unicode_whitespace(c: char) -> bool {
    let n = c as u32;
    ||| 0x09 <= n <= 0x0D
    ||| n == 0x20
    ||| n == 0x85
    ||| n == 0xA0
    ||| n == 0x1680
    ||| 0x2000 <= n <= 0x200A
    ||| n == 0x2028
    ||| n == 0x2029
    ||| n == 0x202F
    ||| n == 0x205F
    ||| n == 0x3000
}

/// Unicode `Alphabetic` or `Numeric`, as std's `char::is_alphanumeric` decides it.
pub uninterp spec fn unicode_alphanumeric(c: char) -> bool;

/// The full Unicode lower-case mapping of a string, as std's `str::to_lowercase` computes it.
pub uninterp spec fn unicode_lowercase(s: Seq<char>) -> Seq<char>;

/// Whether `c` is white space in Unicode's sense.
pub(crate) fn is_whitespace(c: char) -> (b: bool)
    ensures
        b == unicode_whitespace(c),
{
    let n = c as u32;
    (0x09 <= n && n <= 0x0D) || n == 0x20 || n == 0x85 || n == 0xA0 || n == 0x1680
        || (0x2000 <= n && n <= 0x200A) || n == 0x2028 || n == 0x2029 || n == 0x202F
        || n == 0x205F || n == 0x3000
}

/// Calls std's `char::is_alphanumeric`; its answer is named `unicode_alphanumeric`.
#[verifier::external_body]
pub(crate) fn is_alphanumeric(c: char) -> (b: bool)
    ensures
        b == unicode_alphanumeric(c),
{
    c.is_alphanumeric()
}

/// Calls std's `str::to_lowercase`; its result is named `unicode_lowercase`.
#[verifier::external_body]
pub(crate) fn to_lowercase(s: &str) -> (r: String)
    ensures
        r@ == unicode_lowercase(s@),
{
    s.to_lowercase()
}

/// Calls std's `String::push`, which appends one character at the end of the string.
#[verifier::external_body]
pub(crate) fn push_char(s: &mut String, c: char)
    ensures
        final(s)@ == old(s)@.push(c),
{
    s.push(c)
}

/// The characters of `s`, one by one.
pub fn chars_of(s: &str) -> (v: Vec<char>)
    ensures
        v@ == s@,
{
    let n = s.unicode_len();
    let mut v: Vec<char> = Vec::new();
    let mut i: usize = 0;
    while i < n
        invariant
            n == s@.len(),
            i <= n,
            v@ == s@.subrange(0, i as int),
        decreases n - i,
    {
        v.push(s.get_char(i));
        i = i + 1;
    }
    v
}

/// A string holding exactly the characters of `v`.
pub fn string_of(v: &[char]) -> (s: String)
    ensures
        s@ == v@,
{
    let mut s = String::new();
    let mut i: usize = 0;
    while i < v.len()
        invariant
            i <= v@.len(),
            s@ == v@.subrange(0, i as int),
        decreases v@.len() - i,
    {
        push_char(&mut s, v[i]);
        i = i + 1;
    }
    s
}

/// Appends all of `w` to the end of `v`.
pub fn extend_chars(v: &mut Vec<char>, w: &[char])
    ensures
        final(v)@ == old(v)@ + w@,
{
    let mut i: usize = 0;
    while i < w.len()
        invariant
            i <= w@.len(),
            v@ == old(v)@ + w@.subrange(0, i as int),
        decreases w@.len() - i,
    {
        v.push(w[i]);
        i = i + 1;
    }
}

/// Whether `v` holds exactly the characters of `lit`.
pub fn same_chars(v: &[char], lit: &str) -> (b: bool)
    ensures
        b == (v@ == lit@),
{
    let n = lit.unicode_len();
    if v.len() != n {
        return false;
    }
    let mut i: usize = 0;
    while i < n
        invariant
            n == lit@.len(),
            n == v@.len(),
            i <= n,
            v@.subrange(0, i as int) == lit@.subrange(0, i as int),
        decreases n - i,
    {
        if v[i] != lit.get_char(i) {
            return false;
        }
        i = i + 1;
    }
    assert(v@ == v@.subrange(0, n as int));
    assert(lit@ == lit@.subrange(0, n as int));
    true
}


/// `s` without its leading Unicode white space.
pub open spec fn trim_front(s: Seq<char>) -> Seq<char>
    decreases s.len(),
{
    if s.len() > 0 && unicode_whitespace(s[0]) {
        trim_front(s.drop_first())
    } else {
        s
    }
}

/// `s` without its trailing Unicode white space.
pub open spec fn trim_back(s: Seq<char>) -> Seq<char>
    decreases s.len(),
{
    if s.len() > 0 && unicode_whitespace(s.last()) {
        trim_back(s.drop_last())
    } else {
        s
    }
}

/// `s` without leading and trailing Unicode white space, as std's `str::trim` returns it.
pub open spec fn trimmed(s: Seq<char>) -> Seq<char> {
    trim_back(trim_front(s))
}

proof fn lemma_trim_front_start(s: Seq<char>)
    ensures
        trim_front(s).len() == 0 || !unicode_whitespace(trim_front(s)[0]),
    decreases s.len(),
{
    if s.len() > 0 && unicode_whitespace(s[0]) {
        lemma_trim_front_start(s.drop_first());
    }
}

proof fn lemma_trim_back_prefix(s: Seq<char>)
    ensures
        trim_back(s).len() <= s.len(),
        trim_back(s) =~= s.take(trim_back(s).len() as int),
        trim_back(s).len() == 0 || !unicode_whitespace(trim_back(s).last()),
    decreases s.len(),
{
    if s.len() > 0 && unicode_whitespace(s.last()) {
        lemma_trim_back_prefix(s.drop_last());
        assert(s.drop_last().take(trim_back(s).len() as int) =~= s.take(trim_back(s).len() as int));
    }
}

/// Text that neither starts nor ends with white space is its own trimmed form.
pub proof fn lemma_trimmed_unchanged(s: Seq<char>)
    requires
        s.len() == 0 || (!unicode_whitespace(s[0]) && !unicode_whitespace(s.last())),
    ensures
        trimmed(s) == s,
{
}

/// Trimming twice trims no more than trimming once.
pub proof fn lemma_trimmed_twice(s: Seq<char>)
    ensures
        trimmed(trimmed(s)) == trimmed(s),
{
    let f = trim_front(s);
    lemma_trim_front_start(s);
    lemma_trim_back_prefix(f);
    let t = trim_back(f);
    if t.len() > 0 {
        assert(t[0] == f[0]);
    }
    lemma_trimmed_unchanged(t);
}

/// The characters of `v` without leading and trailing white space.
pub fn trim(v: &[char]) -> (r: Vec<char>)
    ensures
        r@ == trimmed(v@),
{
    let n = v.len();
    let mut i: usize = 0;
    assert(v@.subrange(0, n as int) =~= v@);
    while i < n && is_whitespace(v[i])
        invariant
            n == v@.len(),
            i <= n,
            trim_front(v@) == trim_front(v@.subrange(i as int, n as int)),
        decreases n - i,
    {
        assert(v@.subrange(i as int, n as int).drop_first() =~= v@.subrange(i + 1, n as int));
        i = i + 1;
    }
    assert(trim_front(v@) == v@.subrange(i as int, n as int));
    let mut j: usize = n;
    while j > i && is_whitespace(v[j - 1])
        invariant
            n == v@.len(),
            i <= j <= n,
            trimmed(v@) == trim_back(v@.subrange(i as int, j as int)),
        decreases j,
    {
        assert(v@.subrange(i as int, j as int).drop_last() =~= v@.subrange(i as int, j - 1));
        j = j - 1;
    }
    let mut r: Vec<char> = Vec::new();
    let mut k: usize = i;
    while k < j
        invariant
            i <= k <= j <= n,
            n == v@.len(),
            r@ == v@.subrange(i as int, k as int),
        decreases j - k,
    {
        r.push(v[k]);
        k = k + 1;
    }
    r
}


/// `w` occurs in `s` as a whole word: a maximal run of alphanumeric characters, which is
/// what splitting `s` at every non-alphanumeric character yields.
pub open spec fn has_word(s: Seq<char>, w: Seq<char>) -> bool {
    &&& w.len() > 0
    &&& forall|k: int| 0 <= k < w.len() ==> unicode_alphanumeric(#[trigger] w[k])
    &&& exists|i: int| word_at(s, w, i)
}

/// `w` stands in `s` at index `i`, bounded by the ends of `s` or by non-alphanumeric characters.
pub open spec fn word_at(s: Seq<char>, w: Seq<char>, i: int) -> bool {
    &&& 0 <= i
    &&& i + w.len() <= s.len()
    &&& s.subrange(i, i + w.len()) == w
    &&& (i == 0 || !unicode_alphanumeric(s[i - 1]))
    &&& (i + w.len() == s.len() || !unicode_alphanumeric(s[i + w.len()]))
}

/// Whether `w` is one of the words of `s`.
pub fn contains_word(s: &[char], w: &str) -> (b: bool)
    ensures
        b == has_word(s@, w@),
{
    let wv = chars_of(w);
    let m = wv.len();
    if m == 0 {
        return false;
    }
    let mut k: usize = 0;
    while k < m
        invariant
            wv@ == w@,
            m == wv@.len(),
            k <= m,
            forall|q: int| 0 <= q < k ==> unicode_alphanumeric(#[trigger] w@[q]),
        decreases m - k,
    {
        if !is_alphanumeric(wv[k]) {
            return false;
        }
        k = k + 1;
    }
    let n = s.len();
    if m > n {
        assert(forall|i: int| !word_at(s@, w@, i));
        return false;
    }
    let mut i: usize = 0;
    while i <= n - m
        invariant
            wv@ == w@,
            m == wv@.len(),
            n == s@.len(),
            0 < m <= n,
            forall|q: int| 0 <= q < m ==> unicode_alphanumeric(#[trigger] w@[q]),
            forall|p: int| 0 <= p < i ==> !word_at(s@, w@, p),
        decreases n - m + 1 - i,
    {
        let mut j: usize = 0;
        let mut same = true;
        while j < m
            invariant
                wv@ == w@,
                m == wv@.len(),
                n == s@.len(),
                0 < m <= n,
                i + m <= n,
                j <= m,
                same == (forall|q: int| 0 <= q < j ==> s@[i + q] == w@[q]),
            decreases m - j,
        {
            if s[i + j] != wv[j] {
                same = false;
            }
            j = j + 1;
        }
        if same {
            assert(s@.subrange(i as int, i + m) =~= w@);
        } else {
            assert(s@.subrange(i as int, i + m) != w@) by {
                let q = choose|q: int| 0 <= q < m && s@[i + q] != w@[q];
                assert(s@.subrange(i as int, i + m)[q] == s@[i + q]);
            }
        }
        let before = i == 0 || !is_alphanumeric(s[i - 1]);
        let after = i + m == n || !is_alphanumeric(s[i + m]);
        if same && before && after {
            assert(word_at(s@, w@, i as int));
            return true;
        }
        if i == n - m {
            assert forall|p: int| !word_at(s@, w@, p) by {
                if 0 <= p && p + m <= n {
                    assert(p <= i);
                }
            }
            return false;
        }
        i = i + 1;
    }
    false
}


/// The ASCII digit for `d`, which is below ten.
pub open spec fn digit_char(d: nat) -> char {
    ((('0' as u32) as nat) + d) as char
}

/// The decimal digits of `n`, most significant first, as std's integer `Display` writes them.
pub open spec fn decimal(n: nat) -> Seq<char>
    decreases n,
{
    if n < 10 {
        seq![digit_char(n)]
    } else {
        decimal(n / 10).push(digit_char(n % 10))
    }
}

/// A signed integer in decimal, with a leading `-` when negative.
pub open spec fn signed_decimal(n: int) -> Seq<char> {
    if n < 0 {
        seq!['-'] + decimal((-n) as nat)
    } else {
        decimal(n as nat)
    }
}

/// The decimal digits of `n`.
pub fn decimal_chars(n: u64) -> (r: Vec<char>)
    ensures
        r@ == decimal(n as nat),
    decreases n,
{
    if n < 10 {
        let mut r: Vec<char> = Vec::new();
        r.push(((n as u8) + 48) as char);
        assert(r@ =~= seq![digit_char(n as nat)]);
        r
    } else {
        let mut r = decimal_chars(n / 10);
        r.push((((n % 10) as u8) + 48) as char);
        r
    }
}

/// `n` in decimal, with a leading `-` when negative.
pub fn signed_decimal_chars(n: i64) -> (r: Vec<char>)
    ensures
        r@ == signed_decimal(n as int),
{
    if n < 0 {
        let magnitude = (0 - (n as i128)) as u64;
        let digits = decimal_chars(magnitude);
        let mut r: Vec<char> = Vec::new();
        r.push('-');
        extend_chars(&mut r, digits.as_slice());
        assert(r@ =~= seq!['-'] + decimal((-n) as nat));
        r
    } else {
        decimal_chars(n as u64)
    }
}

/// `p` occurs somewhere in `s` as a contiguous run of characters.
pub open spec fn has_substring(s: Seq<char>, p: Seq<char>) -> bool {
    exists|i: int| 0 <= i && i + p.len() <= s.len() && #[trigger] s.subrange(i, i + p.len()) == p
}

/// Whether `p` occurs in `s`.
pub fn contains_text(s: &[char], p: &str) -> (b: bool)
    ensures
        b == has_substring(s@, p@),
{
    let pv = chars_of(p);
    let m = pv.len();
    let n = s.len();
    if m > n {
        return false;
    }
    let mut i: usize = 0;
    while i <= n - m
        invariant
            pv@ == p@,
            m == pv@.len(),
            n == s@.len(),
            m <= n,
            forall|q: int| 0 <= q < i ==> #[trigger] s@.subrange(q, q + m) != p@,
        decreases n - m + 1 - i,
    {
        let mut j: usize = 0;
        let mut same = true;
        while j < m
            invariant
                pv@ == p@,
                m == pv@.len(),
                n == s@.len(),
                i + m <= n,
                j <= m,
                same == (forall|q: int| 0 <= q < j ==> s@[i + q] == p@[q]),
            decreases m - j,
        {
            if s[i + j] != pv[j] {
                same = false;
            }
            j = j + 1;
        }
        if same {
            assert(s@.subrange(i as int, i + m) =~= p@);
            return true;
        }
        assert(s@.subrange(i as int, i + m) != p@) by {
            let q = choose|q: int| 0 <= q < m && s@[i + q] != p@[q];
            assert(s@.subrange(i as int, i + m)[q] == s@[i + q]);
        }
        if i == n - m {
            return false;
        }
        i = i + 1;
    }
    false
}

/// `a` and `b` are equal when ASCII letters are compared without regard to case, as
/// std's `str::eq_ignore_ascii_case` decides.
pub open spec fn equal_ignoring_ascii_case(a: Seq<char>, b: Seq<char>) -> bool {
    a.map_values(|c: char| ascii_lower(c)) == b.map_values(|c: char| ascii_lower(c))
}

/// Whether `a` and `b` match when ASCII case is ignored.
pub fn eq_ignore_ascii_case(a: &[char], b: &[char]) -> (r: bool)
    ensures
        r == equal_ignoring_ascii_case(a@, b@),
{
    if a.len() != b.len() {
        assert(a@.map_values(|c: char| ascii_lower(c)).len() != b@.map_values(|c: char| ascii_lower(c)).len());
        return false;
    }
    let mut i: usize = 0;
    while i < a.len()
        invariant
            a@.len() == b@.len(),
            i <= a@.len(),
            forall|q: int| 0 <= q < i ==> ascii_lower(a@[q]) == ascii_lower(b@[q]),
        decreases a@.len() - i,
    {
        if lower_ascii_char(a[i]) != lower_ascii_char(b[i]) {
            assert(a@.map_values(|c: char| ascii_lower(c))[i as int] != b@.map_values(|c: char| ascii_lower(c))[i as int]);
            return false;
        }
        i = i + 1;
    }
    assert(a@.map_values(|c: char| ascii_lower(c)) =~= b@.map_values(|c: char| ascii_lower(c)));
    true
}

/// `s` with every ASCII letter in lower case, as std's `to_ascii_lowercase` returns it.
pub fn lower_ascii(s: &[char]) -> (r: Vec<char>)
    ensures
        r@ == s@.map_values(|c: char| ascii_lower(c)),
{
    let mut r: Vec<char> = Vec::new();
    let mut i: usize = 0;
    while i < s.len()
        invariant
            i <= s@.len(),
            r@ == s@.subrange(0, i as int).map_values(|c: char| ascii_lower(c)),
        decreases s@.len() - i,
    {
        r.push(lower_ascii_char(s[i]));
        assert(s@.subrange(0, i + 1).map_values(|c: char| ascii_lower(c))
            =~= s@.subrange(0, i as int).map_values(|c: char| ascii_lower(c)).push(ascii_lower(s@[i as int])));
        i = i + 1;
    }
    assert(s@.subrange(0, s@.len() as int) =~= s@);
    r
}

/// The pieces joined with `sep` between neighbours, as std's `join` builds them.
pub open spec fn joined(parts: Seq<Seq<char>>, sep: Seq<char>) -> Seq<char>
    decreases parts.len(),
{
    if parts.len() == 0 {
        Seq::<char>::empty()
    } else if parts.len() == 1 {
        parts[0]
    } else {
        joined(parts.drop_last(), sep) + sep + parts.last()
    }
}

/// The character sequences held by a list of character vectors.
pub open spec fn views(parts: Seq<Vec<char>>) -> Seq<Seq<char>> {
    parts.map_values(|v: Vec<char>| v@)
}

/// The pieces of `parts` joined with `sep` between neighbours.
pub fn join_chars(parts: &Vec<Vec<char>>, sep: &str) -> (r: Vec<char>)
    ensures
        r@ == joined(views(parts@), sep@),
{
    let mut r: Vec<char> = Vec::new();
    if parts.len() == 0 {
        return r;
    }
    let s = chars_of(sep);
    extend_chars(&mut r, parts[0].as_slice());
    let mut k: usize = 1;
    assert(views(parts@).subrange(0, 1) =~= seq![parts@[0]@]);
    while k < parts.len()
        invariant
            1 <= k <= parts@.len(),
            s@ == sep@,
            r@ == joined(views(parts@).subrange(0, k as int), sep@),
        decreases parts@.len() - k,
    {
        extend_chars(&mut r, s.as_slice());
        extend_chars(&mut r, parts[k].as_slice());
        assert(views(parts@).subrange(0, k + 1).drop_last() =~= views(parts@).subrange(0, k as int));
        k = k + 1;
    }
    assert(views(parts@).subrange(0, parts@.len() as int) =~= views(parts@));
    r
}

/// The pieces of `s` between occurrences of `sep`, as std's `str::split` yields them.
pub open spec fn split_on(s: Seq<char>, sep: char) -> Seq<Seq<char>>
    decreases s.len(),
{
    if s.len() == 0 {
        seq![Seq::<char>::empty()]
    } else {
        let head = split_on(s.drop_last(), sep);
        if s.last() == sep {
            head.push(Seq::<char>::empty())
        } else {
            head.update(head.len() - 1, head.last().push(s.last()))
        }
    }
}

/// Text without the separator is a single piece.
pub proof fn lemma_split_whole(s: Seq<char>, sep: char)
    requires
        forall|i: int| 0 <= i < s.len() ==> s[i] != sep,
    ensures
        split_on(s, sep) == seq![s],
    decreases s.len(),
{
    if s.len() > 0 {
        lemma_split_whole(s.drop_last(), sep);
        assert(s[s.len() - 1] != sep);
        assert(s.drop_last().push(s.last()) =~= s);
        assert(split_on(s, sep) =~= seq![s]);
    } else {
        assert(s =~= Seq::<char>::empty());
    }
}

/// When the first `m` characters are not the separator, the first piece holds at least them.
pub proof fn lemma_split_first_piece(s: Seq<char>, sep: char, m: int)
    requires
        0 <= m <= s.len(),
        forall|i: int| 0 <= i < m ==> s[i] != sep,
    ensures
        split_on(s, sep)[0].len() >= m,
    decreases s.len(),
{
    if m == s.len() {
        lemma_split_whole(s, sep);
    } else {
        lemma_split_first_piece(s.drop_last(), sep, m);
        lemma_split_nonempty(s.drop_last(), sep);
    }
}

/// The pieces of `s` between occurrences of `sep`.
pub fn split_chars(s: &[char], sep: char) -> (parts: Vec<Vec<char>>)
    ensures
        views(parts@) == split_on(s@, sep),
{
    let mut parts: Vec<Vec<char>> = Vec::new();
    let mut cur: Vec<char> = Vec::new();
    let mut i: usize = 0;
    assert(s@.subrange(0, 0) =~= Seq::<char>::empty());
    assert(views(parts@).push(cur@) =~= seq![Seq::<char>::empty()]);
    while i < s.len()
        invariant
            i <= s@.len(),
            split_on(s@.subrange(0, i as int), sep) == views(parts@).push(cur@),
        decreases s@.len() - i,
    {
        let c = s[i];
        let ghost before = views(parts@).push(cur@);
        let ghost old_parts = parts@;
        assert(s@.subrange(0, i + 1).drop_last() =~= s@.subrange(0, i as int));
        if c == sep {
            let done = cur;
            let ghost cv = done@;
            parts.push(done);
            cur = Vec::new();
            assert(views(parts@) =~= views(old_parts).push(cv));
            assert(views(parts@).push(cur@) =~= before.push(Seq::<char>::empty()));
        } else {
            cur.push(c);
            assert(views(parts@).push(cur@) =~= before.update(before.len() - 1, before.last().push(c)));
        }
        i = i + 1;
    }
    assert(s@.subrange(0, s@.len() as int) =~= s@);
    let ghost old_parts = parts@;
    let ghost cv = cur@;
    parts.push(cur);
    assert(views(parts@) =~= views(old_parts).push(cv));
    parts
}

/// Splitting always yields at least one piece, the empty text included.
pub proof fn lemma_split_nonempty(s: Seq<char>, sep: char)
    ensures
        split_on(s, sep).len() >= 1,
    decreases s.len(),
{
    if s.len() > 0 {
        lemma_split_nonempty(s.drop_last(), sep);
    }
}

/// Whether two character sequences are equal.
pub fn equal_chars(a: &[char], b: &[char]) -> (r: bool)
    ensures
        r == (a@ == b@),
{
    if a.len() != b.len() {
        return false;
    }
    let mut i: usize = 0;
    while i < a.len()
        invariant
            a@.len() == b@.len(),
            i <= a@.len(),
            a@.subrange(0, i as int) == b@.subrange(0, i as int),
        decreases a@.len() - i,
    {
        if a[i] != b[i] {
            assert(a@[i as int] != b@[i as int]);
            return false;
        }
        assert(a@.subrange(0, i + 1) =~= a@.subrange(0, i as int).push(a@[i as int]));
        assert(b@.subrange(0, i + 1) =~= b@.subrange(0, i as int).push(b@[i as int]));
        i = i + 1;
    }
    assert(a@ =~= a@.subrange(0, a@.len() as int));
    assert(b@ =~= b@.subrange(0, b@.len() as int));
    true
}

/// `c` with an ASCII upper-case letter mapped to its lower-case letter.
pub open spec fn ascii_lower(c: char) -> char {
    if 'A' <= c && c <= 'Z' {
        ((c as u32) + 32) as char
    } else {
        c
    }
}

/// `c` with an ASCII lower-case letter mapped to its upper-case letter.
pub open spec fn ascii_upper(c: char) -> char {
    if 'a' <= c && c <= 'z' {
        ((c as u32) - 32) as char
    } else {
        c
    }
}

pub fn lower_ascii_char(c: char) -> (r: char)
    ensures
        r == ascii_lower(c),
{
    if 'A' <= c && c <= 'Z' {
        ((c as u8) + 32) as char
    } else {
        c
    }
}

pub fn upper_ascii_char(c: char) -> (r: char)
    ensures
        r == ascii_upper(c),
{
    if 'a' <= c && c <= 'z' {
        ((c as u8) - 32) as char
    } else {
        c
    }
}

} // verus!
