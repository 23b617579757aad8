//! Strip Vertex AI publisher prefixes and dated suffixes so the same
//! pricing table works for the AI Studio and Vertex AI endpoints.
//!
//! Gemini model ids come in three shapes:
//!
//! * `gemini-2.5-pro`: AI Studio alias
//! * `gemini-2.5-pro-preview-05-06`: dated AI Studio preview snapshot
//! * `projects/p/locations/l/publishers/google/models/gemini-2.5-pro`:
//!   fully-qualified Vertex resource path
//!
//! All three normalize to the AI Studio alias.
//!
//! Every function here works on the `char` view of a `&str`. The
//! separators (`/`, `-`) and the digits are ASCII, so character
//! positions and byte positions select the same pieces of the id.

use vstd::prelude::*;
use vstd::string::*;

verus! {

// ---------------------------------------------------------------------
// Model of the text operations
// ---------------------------------------------------------------------

/// `c` is one of the ASCII digits `0` through `9`.
pub open spec fn is_ascii_digit(c: char) -> bool {
    '0' <= c && c <= '9'
}

/// `s` is exactly `n` ASCII digits.
pub open spec fn is_digit_run(s: Seq<char>, n: nat) -> bool {
    &&& s.len() == n
    &&& forall|i: int| 0 <= i < s.len() ==> is_ascii_digit(#[trigger] s[i])
}

/// `pat` occurs in `s` starting at position `i`.
pub open spec fn occurs_at(s: Seq<char>, pat: Seq<char>, i: int) -> bool {
    &&& 0 <= i
    &&& i + pat.len() <= s.len()
    &&& s.subrange(i, i + pat.len()) == pat
}

/// `pat` occurs somewhere in `s` as a contiguous piece.
pub open spec fn contains_seq(s: Seq<char>, pat: Seq<char>) -> bool {
    exists|i: int| #[trigger] occurs_at(s, pat, i)
}

/// Position of the last occurrence of `c` in `s`, if any.
pub open spec fn last_index_of(s: Seq<char>, c: char) -> Option<int>
    decreases s.len(),
{
    if s.len() == 0 {
        None
    } else if s.last() == c {
        Some(s.len() - 1)
    } else {
        last_index_of(s.drop_last(), c)
    }
}

/// Split `s` around its last occurrence of `c`: the part before it and the
/// part after it. `None` when `c` does not occur.
pub open spec fn split_at_last(s: Seq<char>, c: char) -> Option<(Seq<char>, Seq<char>)> {
    match last_index_of(s, c) {
        Some(i) => Some((s.take(i), s.skip(i + 1))),
        None => None,
    }
}

/// The piece of a Vertex resource path that precedes the model alias.
pub open spec fn vertex_marker() -> Seq<char> {
    "/publishers/google/models/"@
}

/// The tags of dated snapshot suffixes.
pub open spec fn is_snapshot_tag(tag: Seq<char>) -> bool {
    tag == "preview"@ || tag == "exp"@
}

/// A Vertex resource path keeps only what follows its final `/`; any other
/// id is left as it is.
pub open spec fn strip_vertex_path(s: Seq<char>) -> Seq<char> {
    if contains_seq(s, vertex_marker()) {
        match last_index_of(s, '/') {
            Some(i) => s.skip(i + 1),
            None => s,
        }
    } else {
        s
    }
}

/// Drop a trailing `-<tag>-MM-DD` suffix, where `<tag>` is `preview` or
/// `exp` and `MM`, `DD` are two digits each; any other id is left as it is.
pub open spec fn strip_snapshot_suffix(s: Seq<char>) -> Seq<char> {
    match split_at_last(s, '-') {
        Some((head, dd)) => if is_digit_run(dd, 2) {
            match split_at_last(head, '-') {
                Some((head2, mm)) => if is_digit_run(mm, 2) {
                    match split_at_last(head2, '-') {
                        Some((head3, tag)) => if is_snapshot_tag(tag) {
                            head3
                        } else {
                            s
                        },
                        None => s,
                    }
                } else {
                    s
                },
                None => s,
            }
        } else {
            s
        },
        None => s,
    }
}

/// The normalized form of a model id.
pub open spec fn normalized(s: Seq<char>) -> Seq<char> {
    strip_snapshot_suffix(strip_vertex_path(s))
}

// ---------------------------------------------------------------------
// Facts about the model
// ---------------------------------------------------------------------

/// What `last_index_of` means: the position of an occurrence of `c` with no
/// occurrence after it, or `None` when `c` does not occur at all.
pub proof fn lemma_last_index_of(s: Seq<char>, c: char)
    ensures
        match last_index_of(s, c) {
            Some(i) => {
                &&& 0 <= i < s.len()
                &&& s[i] == c
                &&& forall|j: int| i < j < s.len() ==> s[j] != c
            },
            None => forall|j: int| 0 <= j < s.len() ==> s[j] != c,
        },
    decreases s.len(),
{
    if s.len() > 0 && s.last() != c {
        lemma_last_index_of(s.drop_last(), c);
        assert forall|j: int| 0 <= j < s.len() - 1 implies s.drop_last()[j] == s[j] by {}
    }
}

/// The last `c` of `x + [c] + y`, where `y` holds no `c`, is the one
/// between `x` and `y`.
pub proof fn lemma_last_index_of_split(x: Seq<char>, c: char, y: Seq<char>)
    requires
        forall|j: int| 0 <= j < y.len() ==> y[j] != c,
    ensures
        last_index_of(x + seq![c] + y, c) == Some(x.len() as int),
        split_at_last(x + seq![c] + y, c) == Some((x, y)),
    decreases y.len(),
{
    let s = x + seq![c] + y;
    if y.len() > 0 {
        assert(s.last() == y.last());
        assert(s.drop_last() =~= x + seq![c] + y.drop_last());
        lemma_last_index_of_split(x, c, y.drop_last());
    }
    assert(s.take(x.len() as int) =~= x);
    assert(s.skip(x.len() as int + 1) =~= y);
}

/// Splitting at the last `c` loses nothing: the two parts and the `c`
/// between them make up `s`, and the second part holds no `c`.
pub proof fn lemma_split_at_last_parts(s: Seq<char>, c: char)
    ensures
        match split_at_last(s, c) {
            Some((head, tail)) => {
                &&& s == head + seq![c] + tail
                &&& forall|j: int| 0 <= j < tail.len() ==> tail[j] != c
            },
            None => forall|j: int| 0 <= j < s.len() ==> s[j] != c,
        },
{
    lemma_last_index_of(s, c);
    if let Some(i) = last_index_of(s, c) {
        assert(s =~= s.take(i) + seq![c] + s.skip(i + 1));
        let tail = s.skip(i + 1);
        assert forall|j: int| 0 <= j < tail.len() implies #[trigger] tail[j] != c by {
            assert(tail[j] == s[i + 1 + j]);
        }
    }
}

/// `s` holds no `c`.
pub open spec fn free_of(s: Seq<char>, c: char) -> bool {
    forall|j: int| 0 <= j < s.len() ==> s[j] != c
}

/// A dated snapshot id: `head-<tag>-MM-DD`.
pub open spec fn snapshot_id(
    head: Seq<char>,
    tag: Seq<char>,
    mm: Seq<char>,
    dd: Seq<char>,
) -> Seq<char> {
    head + seq!['-'] + tag + seq!['-'] + mm + seq!['-'] + dd
}

/// Appending a piece free of `c` does not move the last `c`.
proof fn lemma_last_index_of_append_free(x: Seq<char>, c: char, y: Seq<char>)
    requires
        free_of(y, c),
    ensures
        last_index_of(x + y, c) == last_index_of(x, c),
    decreases y.len(),
{
    if y.len() > 0 {
        assert((x + y).last() == y.last());
        assert((x + y).drop_last() =~= x + y.drop_last());
        lemma_last_index_of_append_free(x, c, y.drop_last());
    } else {
        assert(x + y =~= x);
    }
}

/// A run of digits holds no `-`.
proof fn lemma_digit_run_free_of_dash(s: Seq<char>, n: nat)
    requires
        is_digit_run(s, n),
    ensures
        free_of(s, '-'),
{
    assert forall|j: int| 0 <= j < s.len() implies s[j] != '-' by {
        assert(is_ascii_digit(s[j]));
    }
}

/// A snapshot tag holds no `-` and no `/`.
proof fn lemma_snapshot_tag_free(tag: Seq<char>)
    requires
        is_snapshot_tag(tag),
    ensures
        free_of(tag, '-'),
        free_of(tag, '/'),
{
    reveal_strlit("preview");
    reveal_strlit("exp");
}

/// The marker ends with `/`, and nothing free of `/` contains it.
proof fn lemma_vertex_marker()
    ensures
        vertex_marker().len() == 26,
        vertex_marker() == vertex_marker().take(25) + seq!['/'],
        forall|s: Seq<char>| free_of(s, '/') ==> !contains_seq(s, vertex_marker()),
{
    reveal_strlit("/publishers/google/models/");
    assert(vertex_marker() =~= vertex_marker().take(25) + seq!['/']);
    assert forall|s: Seq<char>| free_of(s, '/') implies !contains_seq(s, vertex_marker()) by {
        if contains_seq(s, vertex_marker()) {
            let i = choose|i: int| #[trigger] occurs_at(s, vertex_marker(), i);
            assert(s.subrange(i, i + 26)[0] == s[i]);
        }
    }
}

/// A dated snapshot suffix is dropped and leaves exactly its head.
pub proof fn law_snapshot_suffix_is_stripped(
    head: Seq<char>,
    tag: Seq<char>,
    mm: Seq<char>,
    dd: Seq<char>,
)
    requires
        is_snapshot_tag(tag),
        is_digit_run(mm, 2),
        is_digit_run(dd, 2),
    ensures
        strip_snapshot_suffix(snapshot_id(head, tag, mm, dd)) == head,
{
    lemma_digit_run_free_of_dash(mm, 2);
    lemma_digit_run_free_of_dash(dd, 2);
    lemma_snapshot_tag_free(tag);
    let head2 = head + seq!['-'] + tag;
    let head1 = head2 + seq!['-'] + mm;
    assert(snapshot_id(head, tag, mm, dd) == head1 + seq!['-'] + dd);
    lemma_last_index_of_split(head1, '-', dd);
    lemma_last_index_of_split(head2, '-', mm);
    lemma_last_index_of_split(head, '-', tag);
}

/// An id whose snapshot suffix is dropped has the form
/// `normalized-head-<tag>-MM-DD`; any other id is kept whole.
pub proof fn law_snapshot_suffix_shape(s: Seq<char>)
    ensures
        strip_snapshot_suffix(s) == s || exists|tag: Seq<char>, mm: Seq<char>, dd: Seq<char>|
            {
                &&& is_snapshot_tag(tag)
                &&& is_digit_run(mm, 2)
                &&& is_digit_run(dd, 2)
                &&& s == #[trigger] snapshot_id(strip_snapshot_suffix(s), tag, mm, dd)
            },
{
    lemma_split_at_last_parts(s, '-');
    if let Some((head, dd)) = split_at_last(s, '-') {
        lemma_split_at_last_parts(head, '-');
        if let Some((head2, mm)) = split_at_last(head, '-') {
            lemma_split_at_last_parts(head2, '-');
            if let Some((head3, tag)) = split_at_last(head2, '-') {
                if is_digit_run(dd, 2) && is_digit_run(mm, 2) && is_snapshot_tag(tag) {
                    assert(s =~= snapshot_id(head3, tag, mm, dd));
                }
            }
        }
    }
}

/// A Vertex resource path ending in a model alias (a piece with no `/`)
/// normalizes as that alias does.
pub proof fn law_vertex_path_resolves_to_alias(prefix: Seq<char>, alias: Seq<char>)
    requires
        free_of(alias, '/'),
    ensures
        strip_vertex_path(prefix + vertex_marker() + alias) == alias,
        strip_vertex_path(alias) == alias,
        normalized(prefix + vertex_marker() + alias) == normalized(alias),
{
    lemma_vertex_marker();
    let s = prefix + vertex_marker() + alias;
    let x = prefix + vertex_marker().take(25);
    assert(s =~= x + seq!['/'] + alias);
    assert(s.subrange(prefix.len() as int, prefix.len() as int + 26) =~= vertex_marker());
    assert(occurs_at(s, vertex_marker(), prefix.len() as int));
    lemma_last_index_of_split(x, '/', alias);
}

/// A dated snapshot suffix never changes which Vertex path prefix is
/// dropped: the id `head-<tag>-MM-DD` normalizes to `head` with its Vertex
/// prefix (if any) removed.
pub proof fn law_dated_snapshot_resolves(
    head: Seq<char>,
    tag: Seq<char>,
    mm: Seq<char>,
    dd: Seq<char>,
)
    requires
        is_snapshot_tag(tag),
        is_digit_run(mm, 2),
        is_digit_run(dd, 2),
    ensures
        normalized(snapshot_id(head, tag, mm, dd)) == strip_vertex_path(head),
{
    let s = snapshot_id(head, tag, mm, dd);
    let suffix = seq!['-'] + tag + seq!['-'] + mm + seq!['-'] + dd;
    assert(s =~= head + suffix);
    lemma_snapshot_tag_free(tag);
    assert forall|j: int| 0 <= j < mm.len() implies mm[j] != '/' by {
        assert(is_ascii_digit(mm[j]));
    }
    assert forall|j: int| 0 <= j < dd.len() implies dd[j] != '/' by {
        assert(is_ascii_digit(dd[j]));
    }
    assert(free_of(suffix, '/')) by {
        assert forall|j: int| 0 <= j < suffix.len() implies suffix[j] != '/' by {
            if j == 0 {
            } else if j < 1 + tag.len() {
                assert(suffix[j] == tag[j - 1]);
            } else if j == 1 + tag.len() {
            } else if j < 4 + tag.len() {
                assert(suffix[j] == mm[j - 2 - tag.len()]);
            } else if j == 4 + tag.len() {
            } else {
                assert(suffix[j] == dd[j - 5 - tag.len()]);
            }
        }
    }
    lemma_vertex_marker();
    lemma_last_index_of_append_free(head, '/', suffix);
    // The marker occurs in `head + suffix` exactly when it occurs in `head`.
    if contains_seq(s, vertex_marker()) {
        let i = choose|i: int| #[trigger] occurs_at(s, vertex_marker(), i);
        assert(s[i + 25] == vertex_marker()[25]) by {
            assert(s.subrange(i, i + 26)[25] == s[i + 25]);
        }
        assert(i + 26 <= head.len()) by {
            if i + 25 >= head.len() {
                assert(s[i + 25] == suffix[i + 25 - head.len()]);
            }
        }
        assert(head.subrange(i, i + 26) =~= s.subrange(i, i + 26));
        assert(occurs_at(head, vertex_marker(), i));
    }
    if contains_seq(head, vertex_marker()) {
        let i = choose|i: int| #[trigger] occurs_at(head, vertex_marker(), i);
        assert(head.subrange(i, i + 26) =~= s.subrange(i, i + 26));
        assert(occurs_at(s, vertex_marker(), i));
    }
    let t = strip_vertex_path(head);
    assert(strip_vertex_path(s) =~= snapshot_id(t, tag, mm, dd)) by {
        if contains_seq(head, vertex_marker()) {
            lemma_last_index_of(head, '/');
            if let Some(k) = last_index_of(head, '/') {
                assert(s.skip(k + 1) =~= head.skip(k + 1) + suffix);
            }
        }
    }
    law_snapshot_suffix_is_stripped(t, tag, mm, dd);
}

/// An id with no `/` whose last character is not a digit is its own
/// normalized form: plain aliases such as `gemini-2.5-pro` are kept.
pub proof fn law_plain_alias_kept(s: Seq<char>)
    requires
        free_of(s, '/'),
        s.len() > 0,
        !is_ascii_digit(s.last()),
    ensures
        strip_vertex_path(s) == s,
        normalized(s) == s,
{
    lemma_vertex_marker();
    lemma_split_at_last_parts(s, '-');
    if let Some((head, dd)) = split_at_last(s, '-') {
        if is_digit_run(dd, 2) {
            assert(s.last() == dd[1]);
        }
    }
}

/// Normalizing only trims: the result is a contiguous piece of the id,
/// what is left after dropping a prefix and a suffix.
pub proof fn law_normalized_is_piece_of_id(s: Seq<char>)
    ensures
        exists|i: int, j: int|
            0 <= i <= j <= s.len() && normalized(s) == #[trigger] s.subrange(i, j),
{
    lemma_last_index_of(s, '/');
    let i: int = if contains_seq(s, vertex_marker()) {
        match last_index_of(s, '/') {
            Some(k) => k + 1,
            None => 0,
        }
    } else {
        0
    };
    let t = strip_vertex_path(s);
    assert(t =~= s.subrange(i, s.len() as int));
    lemma_last_index_of(t, '-');
    let mut j: int = t.len() as int;
    if let Some((head, dd)) = split_at_last(t, '-') {
        lemma_last_index_of(head, '-');
        if let Some((head2, mm)) = split_at_last(head, '-') {
            lemma_last_index_of(head2, '-');
            if let Some((head3, tag)) = split_at_last(head2, '-') {
                if is_digit_run(dd, 2) && is_digit_run(mm, 2) && is_snapshot_tag(tag) {
                    j = head3.len() as int;
                    assert(head3 =~= t.take(j));
                }
            }
        }
    }
    assert(normalized(s) =~= s.subrange(i, i + j));
}

/// The digits of a snapshot date are exactly the ten characters `0`
/// through `9`.
pub proof fn law_ascii_digits_are_zero_to_nine(c: char)
    ensures
        is_ascii_digit(c) <==> (c == '0' || c == '1' || c == '2' || c == '3' || c == '4' || c
            == '5' || c == '6' || c == '7' || c == '8' || c == '9'),
{
}

/// Every date `MM-DD` made of the characters `0` through `9`, behind either
/// tag, is dropped from an id with no `/`: the id normalizes to its head.
pub proof fn law_every_snapshot_date_is_stripped(
    head: Seq<char>,
    preview: bool,
    m1: char,
    m2: char,
    d1: char,
    d2: char,
)
    requires
        free_of(head, '/'),
        '0' <= m1 <= '9',
        '0' <= m2 <= '9',
        '0' <= d1 <= '9',
        '0' <= d2 <= '9',
    ensures
        normalized(
            head + seq!['-'] + (if preview { "preview"@ } else { "exp"@ }) + seq![
                '-',
                m1,
                m2,
                '-',
                d1,
                d2,
            ],
        ) == head,
{
    let tag: Seq<char> = if preview { "preview"@ } else { "exp"@ };
    let mm = seq![m1, m2];
    let dd = seq![d1, d2];
    law_ascii_digits_are_zero_to_nine(m1);
    law_ascii_digits_are_zero_to_nine(m2);
    law_ascii_digits_are_zero_to_nine(d1);
    law_ascii_digits_are_zero_to_nine(d2);
    assert(is_digit_run(mm, 2));
    assert(is_digit_run(dd, 2));
    assert(is_snapshot_tag(tag));
    assert(head + seq!['-'] + tag + seq!['-', m1, m2, '-', d1, d2] =~= snapshot_id(
        head,
        tag,
        mm,
        dd,
    ));
    law_dated_snapshot_resolves(head, tag, mm, dd);
    lemma_vertex_marker();
}

// ---------------------------------------------------------------------
// Executable text operations
// ---------------------------------------------------------------------

/// The character equality of two strings.
pub(crate) fn str_eq(a: &str, b: &str) -> (eq: bool)
    ensures
        eq == (a@ == b@),
{
    let n = a.unicode_len();
    if n != b.unicode_len() {
        return false;
    }
    let mut i: usize = 0;
    while i < n
        invariant
            n == a@.len(),
            n == b@.len(),
            i <= n,
            forall|j: int| 0 <= j < i ==> a@[j] == b@[j],
        decreases n - i,
    {
        if a.get_char(i) != b.get_char(i) {
            return false;
        }
        i = i + 1;
    }
    assert(a@ =~= b@);
    true
}

/// `s` is exactly `n` ASCII digits. An ASCII digit is one byte, so this is
/// also "`s` is `n` bytes, each an ASCII digit".
fn is_n_digits(s: &str, n: usize) -> (res: bool)
    ensures
        res == is_digit_run(s@, n as nat),
{
    let len = s.unicode_len();
    if len != n {
        return false;
    }
    let mut i: usize = 0;
    while i < len
        invariant
            len == s@.len(),
            i <= len,
            forall|j: int| 0 <= j < i ==> is_ascii_digit(#[trigger] s@[j]),
        decreases len - i,
    {
        let c = s.get_char(i);
        if !('0' <= c && c <= '9') {
            return false;
        }
        i = i + 1;
    }
    true
}

/// Whether `pat` occurs in `s`.
fn contains_str(s: &str, pat: &str) -> (found: bool)
    ensures
        found == contains_seq(s@, pat@),
{
    let n = s.unicode_len();
    let m = pat.unicode_len();
    if m > n {
        assert forall|k: int| !occurs_at(s@, pat@, k) by {}
        return false;
    }
    let last = n - m;
    let mut i: usize = 0;
    loop
        invariant
            n == s@.len(),
            m == pat@.len(),
            last == n - m,
            i <= last,
            forall|k: int| 0 <= k < i ==> !#[trigger] occurs_at(s@, pat@, k),
        decreases last - i,
    {
        let mut j: usize = 0;
        let mut matched = true;
        while j < m
            invariant
                n == s@.len(),
                m == pat@.len(),
                i + m <= n,
                j <= m,
                matched ==> forall|l: int| 0 <= l < j ==> s@[i + l] == pat@[l],
                !matched ==> !occurs_at(s@, pat@, i as int),
            decreases m - j,
        {
            if matched && s.get_char(i + j) != pat.get_char(j) {
                matched = false;
                assert(s@.subrange(i as int, i + m)[j as int] == s@[i + j]);
            }
            j = j + 1;
        }
        if matched {
            assert(s@.subrange(i as int, i + m) =~= pat@);
            assert(occurs_at(s@, pat@, i as int));
            return true;
        }
        if i == last {
            assert forall|k: int| !occurs_at(s@, pat@, k) by {
                if 0 <= k < i {
                }
            }
            return false;
        }
        i = i + 1;
    }
}

/// Position of the last `c` in `s`.
fn rfind_char(s: &str, c: char) -> (pos: Option<usize>)
    ensures
        match pos {
            Some(i) => last_index_of(s@, c) == Some(i as int),
            None => last_index_of(s@, c) is None,
        },
{
    let n = s.unicode_len();
    let mut i: usize = n;
    assert(s@.take(n as int) =~= s@);
    while i > 0
        invariant
            n == s@.len(),
            i <= n,
            last_index_of(s@, c) == last_index_of(s@.take(i as int), c),
        decreases i,
    {
        if s.get_char(i - 1) == c {
            assert(s@.take(i as int).last() == c);
            return Some(i - 1);
        }
        assert(s@.take(i as int).drop_last() =~= s@.take(i - 1));
        i = i - 1;
    }
    None
}

/// Split `s` around its last `c`.
fn rsplit_once(s: &str, c: char) -> (parts: Option<(&str, &str)>)
    ensures
        match parts {
            Some((head, tail)) => split_at_last(s@, c) == Some((head@, tail@)),
            None => split_at_last(s@, c) is None,
        },
{
    match rfind_char(s, c) {
        Some(i) => {
            proof {
                lemma_last_index_of(s@, c);
            }
            let n = s.unicode_len();
            let head = s.substring_char(0, i);
            let tail = s.substring_char(i + 1, n);
            assert(head@ =~= s@.take(i as int));
            assert(tail@ =~= s@.skip(i + 1));
            Some((head, tail))
        },
        None => None,
    }
}

// ---------------------------------------------------------------------
// Normalization
// ---------------------------------------------------------------------

/// Strip a Vertex resource-path prefix and any trailing
/// `-(preview|exp)-MM-DD` snapshot suffix.
pub fn normalize_model_id(id: &str) -> (alias: &str)
    ensures
        alias@ == normalized(id@),
{
    let mut s = id;

    // Vertex resource path: keep the tail after the final `/`.
    if contains_str(s, "/publishers/google/models/") {
        if let Some(slash) = rfind_char(s, '/') {
            proof {
                lemma_last_index_of(s@, '/');
            }
            let n = s.unicode_len();
            s = s.substring_char(slash + 1, n);
            assert(s@ =~= id@.skip(slash + 1));
        }
    }
    assert(s@ == strip_vertex_path(id@));

    // Strip a trailing -preview-MM-DD or -exp-MM-DD snapshot suffix:
    // …-<tag>-MM-DD with the tag one of preview, exp.
    let ghost t = s@;
    if let Some((head, dd)) = rsplit_once(s, '-') {
        if is_n_digits(dd, 2) {
            if let Some((head2, mm)) = rsplit_once(head, '-') {
                if is_n_digits(mm, 2) {
                    if let Some((head3, tag)) = rsplit_once(head2, '-') {
                        if str_eq(tag, "preview") || str_eq(tag, "exp") {
                            s = head3;
                        }
                    }
                }
            }
        }
    }
    assert(s@ == strip_snapshot_suffix(t));
    s
}

} // verus!
