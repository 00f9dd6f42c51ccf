//! Normalization of the list-valued text fields of a recipe record, such as
//! `['egg', 'flour', 'sugar']`, into a sequence of items.
use vstd::prelude::*;

verus! {

/// The characters that mark a list literal and carry no content.
pub open spec fn is_list_marker(c: char) -> bool {
    c == '[' || c == ']' || c == '\''
}

/// The characters of `s` that are not list markers, in order.
pub open spec fn strip_markers(s: Seq<char>) -> Seq<char>
    decreases s.len(),
{
    if s.len() == 0 {
        s
    } else if is_list_marker(s.last()) {
        strip_markers(s.drop_last())
    } else {
        strip_markers(s.drop_last()).push(s.last())
    }
}

/// Unicode `White_Space`, the characters that trimming removes.
pub open spec fn is_white_space(c: char) -> bool {
    ('\u{9}' <= c && c <= '\u{d}') || c == ' ' || c == '\u{85}' || c == '\u{a0}'
        || c == '\u{1680}' || ('\u{2000}' <= c && c <= '\u{200a}') || c == '\u{2028}'
        || c == '\u{2029}' || c == '\u{202f}' || c == '\u{205f}' || c == '\u{3000}'
}

/// `s` without its leading white space.
pub open spec fn trim_start(s: Seq<char>) -> Seq<char>
    decreases s.len(),
{
    if s.len() > 0 && is_white_space(s[0]) {
        trim_start(s.drop_first())
    } else {
        s
    }
}

/// `s` without its trailing white space.
pub open spec fn trim_end(s: Seq<char>) -> Seq<char>
    decreases s.len(),
{
    if s.len() > 0 && is_white_space(s.last()) {
        trim_end(s.drop_last())
    } else {
        s
    }
}

/// `s` without its leading and trailing white space.
pub open spec fn trim(s: Seq<char>) -> Seq<char> {
    trim_end(trim_start(s))
}

/// The pieces of `s` between occurrences of `sep`; there is always at least one.
pub open spec fn split_on(s: Seq<char>, sep: char) -> Seq<Seq<char>>
    decreases s.len(),
{
    if s.len() == 0 {
        seq![Seq::<char>::empty()]
    } else {
        let pieces = split_on(s.drop_last(), sep);
        if s.last() == sep {
            pieces.push(Seq::<char>::empty())
        } else {
            pieces.update(pieces.len() - 1, pieces.last().push(s.last()))
        }
    }
}

/// Each piece trimmed.
pub open spec fn trim_all(pieces: Seq<Seq<char>>) -> Seq<Seq<char>> {
    pieces.map_values(|p: Seq<char>| trim(p))
}

/// The items of a list-valued field: markers removed, then, unless nothing
/// but white space is left, split at each comma with each piece trimmed.
/// Commas always separate items, so an empty piece between two commas is an
/// empty item; a field of markers and white space alone has no item.
pub open spec fn normalized(s: Seq<char>) -> Seq<Seq<char>> {
    let t = strip_markers(s);
    if trim(t).len() == 0 {
        Seq::<Seq<char>>::empty()
    } else {
        trim_all(split_on(t, ','))
    }
}

/// The character views of a sequence of strings.
pub open spec fn views(v: Seq<String>) -> Seq<Seq<char>> {
    v.map_values(|x: String| x@)
}

/// Whether `c` is white space in the sense of `is_white_space`.
pub fn char_is_white_space(c: char) -> (r: bool)
    ensures
        r == is_white_space(c),
{
    ('\u{9}' <= c && c <= '\u{d}') || c == ' ' || c == '\u{85}' || c == '\u{a0}'
        || c == '\u{1680}' || ('\u{2000}' <= c && c <= '\u{200a}') || c == '\u{2028}'
        || c == '\u{2029}' || c == '\u{202f}' || c == '\u{205f}' || c == '\u{3000}'
}

/// The pattern that matches a single list marker.
const LIST_MARKER_CLASS: &'static str = r"[\[\]']";

/// Relies on `regex::Regex::replace_all` with the character class `[\[\]']`
/// and an empty replacement: each '[', ']' and '\'' is removed, every other
/// character is kept in order.
#[verifier::external_body]
fn strip_list_markers(s: &str) -> (r: String)
    ensures
        r@ == strip_markers(s@),
{
    let re = regex::Regex::new(LIST_MARKER_CLASS).unwrap();
    re.replace_all(s, "").into_owned()
}

/// Relies on `String::push`: appends one character.
#[verifier::external_body]
fn push_char(s: &mut String, c: char)
    ensures
        final(s)@ == old(s)@.push(c),
{
    s.push(c);
}

proof fn lemma_trim_start_at(s: Seq<char>, a: int)
    requires
        0 <= a <= s.len(),
        forall|k: int| 0 <= k < a ==> is_white_space(#[trigger] s[k]),
        a == s.len() || !is_white_space(s[a]),
    ensures
        trim_start(s) == s.subrange(a, s.len() as int),
    decreases a,
{
    if a == 0 {
        assert(s.subrange(0, s.len() as int) =~= s);
    } else {
        let t = s.drop_first();
        assert forall|k: int| 0 <= k < a - 1 implies is_white_space(#[trigger] t[k]) by {
            assert(t[k] == s[k + 1]);
        }
        lemma_trim_start_at(t, a - 1);
        assert(t.subrange(a - 1, t.len() as int) =~= s.subrange(a, s.len() as int));
    }
}

proof fn lemma_trim_end_at(s: Seq<char>, b: int)
    requires
        0 <= b <= s.len(),
        forall|k: int| b <= k < s.len() ==> is_white_space(#[trigger] s[k]),
        b == 0 || !is_white_space(s[b - 1]),
    ensures
        trim_end(s) == s.subrange(0, b),
    decreases s.len() - b,
{
    if b == s.len() {
        assert(s.subrange(0, b) =~= s);
    } else {
        let t = s.drop_last();
        assert forall|k: int| b <= k < t.len() implies is_white_space(#[trigger] t[k]) by {
            assert(t[k] == s[k]);
        }
        lemma_trim_end_at(t, b);
        assert(t.subrange(0, b) =~= s.subrange(0, b));
    }
}

/// The characters of `piece` without leading and trailing white space.
fn trimmed_piece(piece: &Vec<char>) -> (r: String)
    ensures
        r@ == trim(piece@),
{
    let n = piece.len();
    let mut a: usize = 0;
    while a < n && char_is_white_space(piece[a])
        invariant
            a <= n == piece@.len(),
            forall|k: int| 0 <= k < a ==> is_white_space(#[trigger] piece@[k]),
        decreases n - a,
    {
        a = a + 1;
    }
    let mut b: usize = n;
    while b > a && char_is_white_space(piece[b - 1])
        invariant
            a <= b <= n == piece@.len(),
            forall|k: int| b <= k < n ==> is_white_space(#[trigger] piece@[k]),
        decreases b,
    {
        b = b - 1;
    }
    proof {
        lemma_trim_start_at(piece@, a as int);
        let u = piece@.subrange(a as int, n as int);
        assert forall|k: int| b - a <= k < u.len() implies is_white_space(#[trigger] u[k]) by {
            assert(u[k] == piece@[k + a]);
        }
        lemma_trim_end_at(u, b - a);
        assert(u.subrange(0, b - a) =~= piece@.subrange(a as int, b as int));
    }
    let mut r = String::new();
    let mut i: usize = a;
    while i < b
        invariant
            a <= i <= b <= n == piece@.len(),
            r@ == piece@.subrange(a as int, i as int),
        decreases b - i,
    {
        push_char(&mut r, piece[i]);
        assert(r@ =~= piece@.subrange(a as int, i + 1));
        i = i + 1;
    }
    r
}

proof fn lemma_split_len(s: Seq<char>, sep: char)
    ensures
        split_on(s, sep).len() >= 1,
    decreases s.len(),
{
    if s.len() > 0 {
        lemma_split_len(s.drop_last(), sep);
    }
}

proof fn lemma_trim_start_nonempty(s: Seq<char>, k: int)
    requires
        0 <= k < s.len(),
        !is_white_space(s[k]),
    ensures
        trim_start(s).len() > 0,
    decreases k,
{
    if is_white_space(s[0]) {
        assert(s.drop_first()[k - 1] == s[k]);
        lemma_trim_start_nonempty(s.drop_first(), k - 1);
    }
}

proof fn lemma_trim_end_nonempty(s: Seq<char>)
    requires
        s.len() > 0,
        !is_white_space(s[0]),
    ensures
        trim_end(s).len() > 0,
    decreases s.len(),
{
    if s.len() > 1 && is_white_space(s.last()) {
        lemma_trim_end_nonempty(s.drop_last());
    }
}

/// Trimming leaves something exactly where some character is not white space.
proof fn lemma_trim_empty(s: Seq<char>)
    ensures
        trim(s).len() == 0 <==> forall|k: int| 0 <= k < s.len() ==> is_white_space(#[trigger] s[k]),
{
    if exists|k: int| 0 <= k < s.len() && !is_white_space(#[trigger] s[k]) {
        let k = choose|k: int| 0 <= k < s.len() && !is_white_space(#[trigger] s[k]);
        lemma_trim_start_nonempty(s, k);
        lemma_trim_start_chars(s);
        lemma_trim_end_nonempty(trim_start(s));
    } else {
        lemma_trim_start_at(s, s.len() as int);
        assert(s.subrange(s.len() as int, s.len() as int) =~= Seq::<char>::empty());
    }
}

/// Appends the trimmed `piece` to `items`.
fn push_piece(items: &mut Vec<String>, piece: &Vec<char>)
    ensures
        views(final(items)@) == views(old(items)@).push(trim(piece@)),
{
    let item = trimmed_piece(piece);
    items.push(item);
    assert(views(items@) =~= views(old(items)@).push(trim(piece@)));
}

/// Normalizes a list-valued field such as `['egg', 'flour', 'sugar']`: the
/// markers '[', ']' and '\'' are removed; a field left with nothing but white
/// space has no item; any other is split at each comma and each piece is
/// trimmed of white space.
pub fn normalize_list(s: &str) -> (r: Vec<String>)
    ensures
        views(r@) == normalized(s@),
{
    let stripped = strip_list_markers(s);
    let text = stripped.as_str();
    let ghost t = text@;
    let n = text.unicode_len();
    let mut items: Vec<String> = Vec::new();
    let mut piece: Vec<char> = Vec::new();
    let mut blank = true;
    let mut i: usize = 0;
    assert(t.take(0) =~= Seq::<char>::empty());
    while i < n
        invariant
            t == text@,
            t == strip_markers(s@),
            i <= n == t.len(),
            blank == forall|k: int| 0 <= k < i ==> is_white_space(#[trigger] t[k]),
            split_on(t.take(i as int), ',').len() >= 1,
            split_on(t.take(i as int), ',').last() == piece@,
            views(items@) == trim_all(split_on(t.take(i as int), ',').drop_last()),
        decreases n - i,
    {
        let c = text.get_char(i);
        let ghost before = split_on(t.take(i as int), ',');
        proof {
            lemma_split_len(t.take(i as int), ',');
            lemma_split_len(t.take(i + 1), ',');
        }
        assert(t.take(i + 1).drop_last() =~= t.take(i as int));
        if !char_is_white_space(c) {
            blank = false;
        }
        if c == ',' {
            assert(before.drop_last().push(before.last()) =~= before);
            assert(trim_all(before) =~= trim_all(before.drop_last()).push(trim(before.last())));
            push_piece(&mut items, &piece);
            piece = Vec::new();
            assert(split_on(t.take(i + 1), ',') == before.push(Seq::<char>::empty()));
            assert(split_on(t.take(i + 1), ',').drop_last() =~= before);
            assert(piece@ =~= Seq::<char>::empty());
        } else {
            piece.push(c);
            let ghost after = split_on(t.take(i + 1), ',');
            assert(after == before.update(before.len() - 1, before.last().push(c)));
            assert(after.drop_last() =~= before.drop_last());
        }
        i = i + 1;
    }
    proof {
        lemma_split_len(t, ',');
        assert(t.take(n as int) =~= t);
        lemma_trim_empty(t);
    }
    if blank {
        return Vec::new();
    }
    push_piece(&mut items, &piece);
    proof {
        let pieces = split_on(t, ',');
        assert(pieces.drop_last().push(pieces.last()) =~= pieces);
        assert(trim_all(pieces) =~= trim_all(pieces.drop_last()).push(trim(pieces.last())));
    }
    items
}

/// A character that can stand inside a normalized item.
pub open spec fn is_item_char(c: char) -> bool {
    !is_list_marker(c) && c != ','
}

/// Every character of `s` can stand inside a normalized item.
pub open spec fn has_item_chars(s: Seq<char>) -> bool {
    forall|k: int| 0 <= k < s.len() ==> is_item_char(#[trigger] s[k])
}

proof fn lemma_strip_no_markers(s: Seq<char>)
    ensures
        forall|k: int|
            0 <= k < strip_markers(s).len() ==> !is_list_marker(#[trigger] strip_markers(s)[k]),
    decreases s.len(),
{
    if s.len() > 0 {
        let t = strip_markers(s.drop_last());
        lemma_strip_no_markers(s.drop_last());
        assert forall|k: int|
            0 <= k < strip_markers(s).len() implies !is_list_marker(
                #[trigger] strip_markers(s)[k],
            ) by {
            if k < t.len() {
                assert(strip_markers(s)[k] == t[k]);
            }
        }
    }
}

proof fn lemma_strip_unchanged(s: Seq<char>)
    requires
        forall|k: int| 0 <= k < s.len() ==> !is_list_marker(#[trigger] s[k]),
    ensures
        strip_markers(s) == s,
    decreases s.len(),
{
    if s.len() > 0 {
        lemma_strip_unchanged(s.drop_last());
        assert(s.drop_last().push(s.last()) =~= s);
    }
}

proof fn lemma_split_pieces(s: Seq<char>)
    requires
        forall|k: int| 0 <= k < s.len() ==> !is_list_marker(#[trigger] s[k]),
    ensures
        forall|i: int|
            0 <= i < split_on(s, ',').len() ==> has_item_chars(#[trigger] split_on(s, ',')[i]),
    decreases s.len(),
{
    if s.len() > 0 {
        let t = s.drop_last();
        lemma_split_pieces(t);
        lemma_split_len(t, ',');
        let before = split_on(t, ',');
        let after = split_on(s, ',');
        assert forall|i: int| 0 <= i < after.len() implies has_item_chars(#[trigger] after[i]) by {
            if s.last() != ',' && i == before.len() - 1 {
                assert(has_item_chars(before[i]));
                assert(after[i] == before[i].push(s.last()));
            } else if i < before.len() {
                assert(has_item_chars(before[i]));
            }
        }
    }
}

proof fn lemma_trim_start_chars(s: Seq<char>)
    ensures
        has_item_chars(s) ==> has_item_chars(trim_start(s)),
        trim_start(s).len() == 0 || !is_white_space(trim_start(s)[0]),
    decreases s.len(),
{
    if s.len() > 0 && is_white_space(s[0]) {
        lemma_trim_start_chars(s.drop_first());
        if has_item_chars(s) {
            assert(has_item_chars(s.drop_first()));
        }
    }
}

proof fn lemma_trim_end_chars(s: Seq<char>)
    ensures
        has_item_chars(s) ==> has_item_chars(trim_end(s)),
        trim_end(s).len() == 0 || !is_white_space(trim_end(s).last()),
        trim_end(s).len() > 0 ==> trim_end(s)[0] == s[0],
    decreases s.len(),
{
    if s.len() > 0 && is_white_space(s.last()) {
        lemma_trim_end_chars(s.drop_last());
        if has_item_chars(s) {
            assert(has_item_chars(s.drop_last()));
        }
    }
}

/// Trimming keeps item characters, and trimming twice is trimming once.
proof fn lemma_trim_clean(s: Seq<char>)
    ensures
        has_item_chars(s) ==> has_item_chars(trim(s)),
        trim(trim(s)) == trim(s),
{
    let z = trim_start(s);
    let y = trim_end(z);
    lemma_trim_start_chars(s);
    lemma_trim_end_chars(z);
    lemma_trim_end_chars(y);
    assert(trim_start(y) == y);
    assert(trim_end(y) == y);
}

proof fn lemma_split_single(s: Seq<char>)
    requires
        has_item_chars(s),
    ensures
        split_on(s, ',') == seq![s],
    decreases s.len(),
{
    if s.len() > 0 {
        let t = s.drop_last();
        assert(has_item_chars(t));
        lemma_split_single(t);
        assert(t.push(s.last()) =~= s);
        assert(seq![t].update(0, t.push(s.last())) =~= seq![s]);
    } else {
        assert(s =~= Seq::<char>::empty());
    }
}

proof fn lemma_split_after_comma(a: Seq<char>, b: Seq<char>)
    requires
        has_item_chars(b),
    ensures
        split_on(a + seq![','] + b, ',') == split_on(a, ',').push(b),
    decreases b.len(),
{
    let x = a + seq![','] + b;
    if b.len() == 0 {
        assert(x.drop_last() =~= a);
        assert(b =~= Seq::<char>::empty());
    } else {
        let c = b.drop_last();
        assert(has_item_chars(c));
        lemma_split_after_comma(a, c);
        assert(x.drop_last() =~= a + seq![','] + c);
        assert(x.last() == b.last());
        let before = split_on(a, ',').push(c);
        assert(c.push(b.last()) =~= b);
        assert(before.update(before.len() - 1, c.push(b.last())) =~= split_on(a, ',').push(b));
    }
}

/// No character of `s` is a list marker.
pub open spec fn no_markers(s: Seq<char>) -> bool {
    forall|k: int| 0 <= k < s.len() ==> !is_list_marker(#[trigger] s[k])
}

/// Every character of `s` is white space.
pub open spec fn all_white_space(s: Seq<char>) -> bool {
    forall|k: int| 0 <= k < s.len() ==> is_white_space(#[trigger] s[k])
}

/// A list in the form that normalizing gives: every item is trimmed and free
/// of markers and commas, and the list is not a single empty item.
pub open spec fn is_normal_list(items: Seq<Seq<char>>) -> bool {
    &&& forall|i: int|
        0 <= i < items.len() ==> has_item_chars(#[trigger] items[i]) && trim(items[i]) == items[i]
    &&& !(items.len() == 1 && items[0].len() == 0)
}

/// The items joined into one text, with a comma and then `pad` between
/// neighbours.
pub open spec fn join_with(items: Seq<Seq<char>>, pad: Seq<char>) -> Seq<char>
    decreases items.len(),
{
    if items.len() == 0 {
        Seq::<char>::empty()
    } else if items.len() == 1 {
        items[0]
    } else {
        join_with(items.drop_last(), pad) + seq![','] + pad + items.last()
    }
}

/// The items each in single quotes, separated by a comma and a space.
pub open spec fn quoted(items: Seq<Seq<char>>) -> Seq<char>
    decreases items.len(),
{
    if items.len() == 0 {
        Seq::<char>::empty()
    } else if items.len() == 1 {
        seq!['\''] + items[0] + seq!['\'']
    } else {
        quoted(items.drop_last()) + seq![',', ' ', '\''] + items.last() + seq!['\'']
    }
}

/// The items written as a list literal, such as `['egg', 'flour']`.
pub open spec fn list_literal(items: Seq<Seq<char>>) -> Seq<char> {
    seq!['['] + quoted(items) + seq![']']
}

/// The pieces that splitting `join_with(items, pad)` at its commas gives.
pub open spec fn padded(items: Seq<Seq<char>>, pad: Seq<char>) -> Seq<Seq<char>> {
    Seq::new(items.len(), |i: int| if i == 0 { items[0] } else { pad + items[i] })
}

proof fn lemma_split_one(s: Seq<char>, sep: char)
    requires
        split_on(s, sep).len() == 1,
    ensures
        split_on(s, sep)[0] == s,
    decreases s.len(),
{
    if s.len() == 0 {
    } else {
        let t = s.drop_last();
        lemma_split_len(t, sep);
        if s.last() != sep {
            lemma_split_one(t, sep);
            assert(t.push(s.last()) =~= s);
        }
    }
}

/// Whatever a field holds, its items are in normal form.
proof fn lemma_normalized_is_normal(s: Seq<char>)
    ensures
        is_normal_list(normalized(s)),
{
    let t = strip_markers(s);
    lemma_strip_no_markers(s);
    lemma_split_pieces(t);
    let pieces = split_on(t, ',');
    if trim(t).len() > 0 {
        let items = trim_all(pieces);
        assert forall|i: int| 0 <= i < items.len() implies has_item_chars(#[trigger] items[i])
            && trim(items[i]) == items[i] by {
            assert(has_item_chars(pieces[i]));
            lemma_trim_clean(pieces[i]);
        }
        if pieces.len() == 1 {
            lemma_split_one(t, ',');
        }
    }
}

proof fn lemma_no_markers_concat(a: Seq<char>, b: Seq<char>)
    requires
        no_markers(a),
        no_markers(b),
    ensures
        no_markers(a + b),
{
    assert forall|k: int| 0 <= k < (a + b).len() implies !is_list_marker(#[trigger] (a + b)[k]) by {
        if k < a.len() {
            assert((a + b)[k] == a[k]);
        } else {
            assert((a + b)[k] == b[k - a.len()]);
        }
    }
}

proof fn lemma_split_join_with(items: Seq<Seq<char>>, pad: Seq<char>)
    requires
        items.len() >= 1,
        forall|i: int| 0 <= i < items.len() ==> has_item_chars(#[trigger] items[i]),
        has_item_chars(pad),
    ensures
        split_on(join_with(items, pad), ',') == padded(items, pad),
        no_markers(join_with(items, pad)),
    decreases items.len(),
{
    if items.len() == 1 {
        assert(has_item_chars(items[0]));
        lemma_split_single(items[0]);
        assert(seq![items[0]] =~= padded(items, pad));
    } else {
        let rest = items.drop_last();
        let last = items.last();
        assert forall|i: int| 0 <= i < rest.len() implies has_item_chars(#[trigger] rest[i]) by {
            assert(rest[i] == items[i]);
        }
        lemma_split_join_with(rest, pad);
        assert(has_item_chars(items[items.len() - 1]));
        let tail = pad + last;
        assert(has_item_chars(tail)) by {
            assert forall|k: int| 0 <= k < tail.len() implies is_item_char(#[trigger] tail[k]) by {
                if k < pad.len() {
                    assert(tail[k] == pad[k]);
                } else {
                    assert(tail[k] == last[k - pad.len()]);
                }
            }
        }
        let a = join_with(rest, pad);
        lemma_split_after_comma(a, tail);
        assert(join_with(items, pad) =~= a + seq![','] + tail);
        assert(padded(rest, pad).push(tail) =~= padded(items, pad));
        assert(no_markers(seq![','] + tail));
        lemma_no_markers_concat(a, seq![','] + tail);
        assert(a + (seq![','] + tail) =~= a + seq![','] + tail);
    }
}

proof fn lemma_trim_start_pad(pad: Seq<char>, x: Seq<char>)
    requires
        all_white_space(pad),
    ensures
        trim_start(pad + x) == trim_start(x),
    decreases pad.len(),
{
    if pad.len() == 0 {
        assert(pad + x =~= x);
    } else {
        assert((pad + x)[0] == pad[0]);
        assert((pad + x).drop_first() =~= pad.drop_first() + x);
        lemma_trim_start_pad(pad.drop_first(), x);
    }
}

/// Written out with commas and white-space padding, a list in normal form
/// normalizes back to itself.
proof fn lemma_join_round_trip(items: Seq<Seq<char>>, pad: Seq<char>)
    requires
        is_normal_list(items),
        has_item_chars(pad),
        all_white_space(pad),
    ensures
        normalized(join_with(items, pad)) == items,
{
    let j = join_with(items, pad);
    if items.len() == 0 {
        assert(strip_markers(j) =~= Seq::<char>::empty());
        lemma_trim_empty(strip_markers(j));
        assert(items =~= Seq::<Seq<char>>::empty());
    } else {
        lemma_split_join_with(items, pad);
        lemma_strip_unchanged(j);
        lemma_trim_empty(j);
        if items.len() == 1 {
            assert(j == items[0]);
            assert(trim(items[0]) == items[0]);
        } else {
            let a = join_with(items.drop_last(), pad);
            assert(j[a.len() as int] == ',');
            assert(!is_white_space(j[a.len() as int]));
        }
        let pieces = padded(items, pad);
        assert forall|i: int| 0 <= i < items.len() implies trim_all(pieces)[i] == items[i] by {
            assert(has_item_chars(items[i]) && trim(items[i]) == items[i]);
            if i > 0 {
                lemma_trim_start_pad(pad, items[i]);
            }
        }
        assert(trim_all(pieces) =~= items);
    }
}

proof fn lemma_strip_concat(a: Seq<char>, b: Seq<char>)
    ensures
        strip_markers(a + b) == strip_markers(a) + strip_markers(b),
    decreases b.len(),
{
    if b.len() == 0 {
        assert(a + b =~= a);
        assert(strip_markers(a) + strip_markers(b) =~= strip_markers(a));
    } else {
        assert((a + b).drop_last() =~= a + b.drop_last());
        assert((a + b).last() == b.last());
        lemma_strip_concat(a, b.drop_last());
        assert(strip_markers(a) + strip_markers(b.drop_last()).push(b.last()) =~= (strip_markers(a)
            + strip_markers(b.drop_last())).push(b.last()));
    }
}

proof fn lemma_strip_quoted(items: Seq<Seq<char>>)
    requires
        forall|i: int| 0 <= i < items.len() ==> has_item_chars(#[trigger] items[i]),
    ensures
        strip_markers(quoted(items)) == join_with(items, seq![' ']),
    decreases items.len(),
{
    let q = seq!['\''];
    assert(q.drop_last() =~= Seq::<char>::empty());
    assert(strip_markers(Seq::<char>::empty()) =~= Seq::<char>::empty());
    assert(is_list_marker(q.last()));
    assert(strip_markers(q) =~= Seq::<char>::empty());
    if items.len() == 0 {
        assert(strip_markers(Seq::<char>::empty()) =~= Seq::<char>::empty());
    } else {
        let last = items.last();
        assert(has_item_chars(items[items.len() - 1]));
        lemma_strip_unchanged(last);
        if items.len() == 1 {
            lemma_strip_concat(q, last);
            lemma_strip_concat(q + last, q);
            assert(Seq::<char>::empty() + last + Seq::<char>::empty() =~= last);
        } else {
            let rest = items.drop_last();
            assert forall|i: int| 0 <= i < rest.len() implies has_item_chars(#[trigger] rest[i]) by {
                assert(rest[i] == items[i]);
            }
            lemma_strip_quoted(rest);
            let sep = seq![',', ' ', '\''];
            assert(sep.drop_last() =~= seq![',', ' ']);
            assert(seq![',', ' '].drop_last() =~= seq![',']);
            assert(seq![','].drop_last() =~= Seq::<char>::empty());
            assert(strip_markers(seq![',']) =~= seq![',']);
            assert(strip_markers(seq![',', ' ']) =~= seq![',', ' ']);
            assert(strip_markers(sep) =~= seq![',', ' ']);
            let qr = quoted(rest);
            lemma_strip_concat(qr, sep);
            lemma_strip_concat(qr + sep, last);
            lemma_strip_concat(qr + sep + last, q);
            assert(join_with(rest, seq![' ']) + seq![',', ' '] + last + Seq::<char>::empty()
                =~= join_with(rest, seq![' ']) + seq![','] + seq![' '] + last);
        }
    }
}

/// A list in normal form, written as a list literal such as
/// `['egg', 'flour', 'sugar']`, normalizes back to the same items.
pub proof fn lemma_list_literal_round_trip(items: Seq<Seq<char>>)
    requires
        is_normal_list(items),
    ensures
        normalized(list_literal(items)) == items,
{
    assert forall|i: int| 0 <= i < items.len() implies has_item_chars(#[trigger] items[i]) by {}
    lemma_strip_quoted(items);
    let open = seq!['['];
    let close = seq![']'];
    assert(open.drop_last() =~= Seq::<char>::empty());
    assert(close.drop_last() =~= Seq::<char>::empty());
    assert(strip_markers(Seq::<char>::empty()) =~= Seq::<char>::empty());
    assert(is_list_marker(open.last()));
    assert(is_list_marker(close.last()));
    assert(strip_markers(open) =~= Seq::<char>::empty());
    assert(strip_markers(close) =~= Seq::<char>::empty());
    lemma_strip_concat(open, quoted(items));
    lemma_strip_concat(open + quoted(items), close);
    let j = join_with(items, seq![' ']);
    assert(strip_markers(list_literal(items)) =~= j);
    assert(has_item_chars(seq![' ']));
    assert(all_white_space(seq![' ']));
    lemma_join_round_trip(items, seq![' ']);
    if items.len() > 0 {
        lemma_split_join_with(items, seq![' ']);
        lemma_strip_unchanged(j);
    } else {
        assert(strip_markers(j) =~= Seq::<char>::empty());
    }
}

/// Normalizing is idempotent: the items of a field, joined again with
/// commas and normalized once more, are the same items.
pub proof fn lemma_normalize_idempotent(s: Seq<char>)
    ensures
        normalized(join_with(normalized(s), Seq::<char>::empty())) == normalized(s),
{
    lemma_normalized_is_normal(s);
    lemma_join_round_trip(normalized(s), Seq::<char>::empty());
}

/// Normalizing is idempotent: the items of a field, written back as a list
/// literal and normalized once more, are the same items.
pub proof fn lemma_normalize_literal_idempotent(s: Seq<char>)
    ensures
        normalized(list_literal(normalized(s))) == normalized(s),
{
    lemma_normalized_is_normal(s);
    lemma_list_literal_round_trip(normalized(s));
}

} // verus!
