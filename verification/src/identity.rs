//! Title identity: the normalised form under which the same game, imported
//! from different launchers, is recognised as one.
use vstd::prelude::*;
use crate::text::{
    char_is_alphanumeric, char_is_whitespace, chars_to_string, collapse,
    collapse_ws, ends_with, has_suffix, is_alnum, is_sep, is_ws, lemma_collapse_keeps,
    lemma_collapse_tidy, lowercase, same_chars, slice_from, slice_prefix, str_chars,
    str_to_lowercase, tidy,
};

verus! {

/// Trademark, registered and copyright signs, removed from titles.
pub open spec fn is_mark(c: char) -> bool {
    c == '\u{2122}' || c == '\u{ae}' || c == '\u{a9}'
}

/// `s` without its trademark, registered and copyright signs.
pub open spec fn without_marks(s: Seq<char>) -> Seq<char>
    decreases s.len(),
{
    if s.len() == 0 {
        s
    } else if is_mark(s.last()) {
        without_marks(s.drop_last())
    } else {
        without_marks(s.drop_last()).push(s.last())
    }
}

/// The cleaned title: signs removed, lowercased, whitespace collapsed.
pub open spec fn spec_cleanup(title: Seq<char>) -> Seq<char> {
    collapse(lowercase(without_marks(title)))
}

/// The edition suffixes that are stripped, in the order they are tried.
pub open spec fn edition_suffix(k: int) -> Seq<char> {
    if k == 0 {
        "digital deluxe edition"@
    } else if k == 1 {
        "game of the year edition"@
    } else if k == 2 {
        "definitive edition"@
    } else if k == 3 {
        "ultimate edition"@
    } else if k == 4 {
        "complete edition"@
    } else if k == 5 {
        "deluxe edition"@
    } else if k == 6 {
        "standard edition"@
    } else if k == 7 {
        "goty edition"@
    } else if k == 8 {
        "remastered"@
    } else {
        "remaster"@
    }
}

pub open spec fn edition_suffix_count() -> int {
    10
}

/// Characters dropped between a title and a stripped edition suffix.
pub open spec fn is_edition_separator(c: char) -> bool {
    is_ws(c) || c == '-' || c == ':' || c == '\u{2013}' || c == '\u{2014}' || c == '(' || c == '['
}

pub open spec fn trim_end_separators(s: Seq<char>) -> Seq<char>
    decreases s.len(),
{
    if s.len() > 0 && is_edition_separator(s.last()) {
        trim_end_separators(s.drop_last())
    } else {
        s
    }
}

/// What is left of `v` before suffix number `k`, when `v` ends with it.
pub open spec fn before_suffix(v: Seq<char>, k: int) -> Seq<char> {
    trim_end_separators(v.take(v.len() - edition_suffix(k).len()))
}

/// Tries the edition suffixes from number `k` on: a title that is exactly a
/// suffix stops the search unchanged; the first suffix that ends the title
/// and leaves a non-empty remainder is removed, together with the separators
/// before it.
pub open spec fn strip_edition(v: Seq<char>, k: int) -> Seq<char>
    decreases edition_suffix_count() - k,
{
    if k >= edition_suffix_count() || k < 0 {
        v
    } else if v == edition_suffix(k) {
        v
    } else if ends_with(v, edition_suffix(k)) && before_suffix(v, k).len() > 0 {
        before_suffix(v, k)
    } else {
        strip_edition(v, k + 1)
    }
}

pub open spec fn blank_non_alnum(s: Seq<char>) -> Seq<char> {
    s.map_values(|c: char| if is_alnum(c) { c } else { ' ' })
}

/// The normalised title.
pub open spec fn spec_normalize(title: Seq<char>) -> Seq<char> {
    collapse(blank_non_alnum(strip_edition(spec_cleanup(title), 0)))
}

fn edition_suffix_at(k: usize) -> (r: &'static str)
    requires
        k < 10,
    ensures
        r@ == edition_suffix(k as int),
{
    if k == 0 {
        "digital deluxe edition"
    } else if k == 1 {
        "game of the year edition"
    } else if k == 2 {
        "definitive edition"
    } else if k == 3 {
        "ultimate edition"
    } else if k == 4 {
        "complete edition"
    } else if k == 5 {
        "deluxe edition"
    } else if k == 6 {
        "standard edition"
    } else if k == 7 {
        "goty edition"
    } else if k == 8 {
        "remastered"
    } else {
        "remaster"
    }
}

fn remove_marks(v: &[char]) -> (r: Vec<char>)
    ensures
        r@ == without_marks(v@),
{
    let mut r: Vec<char> = Vec::new();
    let mut i: usize = 0;
    while i < v.len()
        invariant
            i <= v.len(),
            r@ == without_marks(v@.take(i as int)),
        decreases v.len() - i,
    {
        let c = v[i];
        proof {
            assert(v@.take(i + 1).drop_last() =~= v@.take(i as int));
        }
        if !(c == '\u{2122}' || c == '\u{ae}' || c == '\u{a9}') {
            r.push(c);
        }
        i += 1;
    }
    assert(v@.take(v.len() as int) =~= v@);
    r
}

/// Removes trademark signs, lowercases and collapses whitespace.
fn cleanup_text(title: &str) -> (r: String)
    ensures
        r@ == spec_cleanup(title@),
{
    let chars = str_chars(title);
    let kept = remove_marks(chars.as_slice());
    let kept_text = chars_to_string(kept.as_slice());
    let lower = str_to_lowercase(kept_text.as_str());
    let lower_chars = str_chars(lower.as_str());
    let collapsed = collapse_ws(lower_chars.as_slice());
    chars_to_string(collapsed.as_slice())
}

fn is_edition_separator_exec(c: char) -> (r: bool)
    ensures
        r == is_edition_separator(c),
{
    char_is_whitespace(c) || c == '-' || c == ':' || c == '\u{2013}' || c == '\u{2014}' || c == '('
        || c == '['
}

fn trim_end_separators_exec(v: &[char]) -> (r: Vec<char>)
    ensures
        r@ == trim_end_separators(v@),
{
    let mut k: usize = v.len();
    assert(v@.take(v.len() as int) =~= v@);
    while k > 0 && is_edition_separator_exec(v[k - 1])
        invariant
            k <= v.len(),
            trim_end_separators(v@) == trim_end_separators(v@.take(k as int)),
        decreases k,
    {
        assert(v@.take(k as int).drop_last() =~= v@.take(k - 1));
        k -= 1;
    }
    slice_prefix(v, k)
}

fn strip_edition_exec(v: &[char]) -> (r: Vec<char>)
    ensures
        r@ == strip_edition(v@, 0),
{
    let mut k: usize = 0;
    while k < 10
        invariant
            k <= 10,
            strip_edition(v@, 0) == strip_edition(v@, k as int),
        decreases 10 - k,
    {
        let suffix = str_chars(edition_suffix_at(k));
        if same_chars(v, suffix.as_slice()) {
            return slice_from(v, 0);
        }
        if has_suffix(v, suffix.as_slice()) {
            let prefix = slice_prefix(v, v.len() - suffix.len());
            let t = trim_end_separators_exec(prefix.as_slice());
            if t.len() > 0 {
                return t;
            }
        }
        k += 1;
    }
    slice_from(v, 0)
}

fn blank_non_alnum_exec(v: &[char]) -> (r: Vec<char>)
    ensures
        r@ == blank_non_alnum(v@),
{
    let mut r: Vec<char> = Vec::new();
    let mut i: usize = 0;
    while i < v.len()
        invariant
            i <= v.len(),
            r@ == blank_non_alnum(v@.take(i as int)),
        decreases v.len() - i,
    {
        let c = v[i];
        if char_is_alphanumeric(c) {
            r.push(c);
        } else {
            r.push(' ');
        }
        i += 1;
        assert(r@ =~= blank_non_alnum(v@.take(i as int)));
    }
    assert(v@.take(v.len() as int) =~= v@);
    r
}

/// The normalised title under which duplicates are recognised: trademark
/// signs removed, lowercased, one conservative edition suffix stripped, every
/// other non-alphanumeric character turned into a space and whitespace
/// collapsed.  The result is words of alphanumeric characters separated by
/// single spaces.
pub fn normalize_title(title: &str) -> (r: String)
    ensures
        r@ == spec_normalize(title@),
        tidy(r@),
        forall|i: int| 0 <= i < r@.len() ==> #[trigger] r@[i] == ' ' || is_alnum(r@[i]),
{
    let cleaned = cleanup_text(title);
    let value = str_chars(cleaned.as_str());
    let stripped = strip_edition_exec(value.as_slice());
    let blanked = blank_non_alnum_exec(stripped.as_slice());
    let out = collapse_ws(blanked.as_slice());
    proof {
        lemma_collapse_tidy(blanked@);
        let p = |c: char| is_alnum(c);
        assert forall|i: int| 0 <= i < blanked@.len() implies is_sep(#[trigger] blanked@[i]) || p(
            blanked@[i],
        ) by {}
        lemma_collapse_keeps(blanked@, p);
    }
    chars_to_string(out.as_slice())
}

/// The edition suffixes the original strips, as its documentation lists
/// them.
pub open spec fn listed_edition_suffix(s: Seq<char>) -> bool {
    s == "digital deluxe edition"@
        || s == "game of the year edition"@
        || s == "definitive edition"@
        || s == "ultimate edition"@
        || s == "complete edition"@
        || s == "deluxe edition"@
        || s == "standard edition"@
        || s == "goty edition"@
        || s == "remastered"@
        || s == "remaster"@
}

proof fn lemma_ends_differ(v: Seq<char>, s: Seq<char>, a: Seq<char>, j: int)
    requires
        ends_with(v, s),
        0 <= j < s.len(),
        j < a.len(),
        s[s.len() - 1 - j] != a[a.len() - 1 - j],
    ensures
        !ends_with(v, a),
        v != a,
{
    if v == a {
        assert(v.skip(0) =~= v);
    }
    if ends_with(v, a) {
        assert(v.skip(v.len() - s.len())[s.len() - 1 - j] == v[v.len() - 1 - j]);
        assert(v.skip(v.len() - a.len())[a.len() - 1 - j] == v[v.len() - 1 - j]);
    }
}

/// A title that is a word followed by `deluxe edition` ends with
/// `digital deluxe edition` only when that word is `digital`.
proof fn lemma_not_digital_deluxe(y: Seq<char>)
    requires
        !ends_with(y, "digital"@),
    ensures
        !ends_with(y + " "@ + "deluxe edition"@, "digital deluxe edition"@),
        y + " "@ + "deluxe edition"@ != "digital deluxe edition"@,
{
    reveal_strlit("digital");
    reveal_strlit(" ");
    reveal_strlit("deluxe edition");
    reveal_strlit("digital deluxe edition");
    let v = y + " "@ + "deluxe edition"@;
    if v == "digital deluxe edition"@ {
        assert(v.skip(0) =~= v);
    }
    if ends_with(v, "digital deluxe edition"@) {
        assert forall|i: int| 0 <= i < 7 implies #[trigger] y.skip(y.len() - 7)[i] == "digital"@[i] by {
            assert(v.skip(v.len() - 22)[i] == v[v.len() - 22 + i]);
            assert(v[v.len() - 22 + i] == y[y.len() - 7 + i]);
        }
        assert(y.skip(y.len() - 7) =~= "digital"@);
    }
}

/// Each listed edition suffix is stripped from a title that ends with it
/// after a space, leaving the title before it without the separators
/// (spaces, dashes, colons, opening brackets) that close it.  (A title
/// whose last word before `deluxe edition` is `digital` loses `digital
/// deluxe edition` instead.)
pub proof fn law_edition_suffix_stripped(y: Seq<char>, s: Seq<char>)
    requires
        listed_edition_suffix(s),
        trim_end_separators(y).len() > 0,
        s == "deluxe edition"@ ==> !ends_with(y, "digital"@),
    ensures
        strip_edition(y + " "@ + s, 0) == trim_end_separators(y),
{
    reveal_strlit("digital deluxe edition");
    reveal_strlit("game of the year edition");
    reveal_strlit("definitive edition");
    reveal_strlit("ultimate edition");
    reveal_strlit("complete edition");
    reveal_strlit("deluxe edition");
    reveal_strlit("standard edition");
    reveal_strlit("goty edition");
    reveal_strlit("remastered");
    reveal_strlit("remaster");
    reveal_strlit(" ");
    let v = y + " "@ + s;
    assert(v.skip(v.len() - s.len()) =~= s);
    assert(v.take(v.len() - s.len()) =~= y + " "@);
    assert((y + " "@).drop_last() =~= y);
    assert(is_edition_separator(' '));
    assert((y + " "@).last() == ' ');
    assert(trim_end_separators(y + " "@) == trim_end_separators(y));
    if s == "digital deluxe edition"@ {
        assert(edition_suffix(0) == s);
        assert(strip_edition(v, 0) == trim_end_separators(y));
    }
    if s == "game of the year edition"@ {
        assert(edition_suffix(1) == s);
        lemma_ends_differ(v, s, edition_suffix(0), 8);
        assert(strip_edition(v, 0) == strip_edition(v, 1));
        assert(strip_edition(v, 1) == trim_end_separators(y));
    }
    if s == "definitive edition"@ {
        assert(edition_suffix(2) == s);
        lemma_ends_differ(v, s, edition_suffix(0), 9);
        assert(strip_edition(v, 0) == strip_edition(v, 1));
        lemma_ends_differ(v, s, edition_suffix(1), 8);
        assert(strip_edition(v, 1) == strip_edition(v, 2));
        assert(strip_edition(v, 2) == trim_end_separators(y));
    }
    if s == "ultimate edition"@ {
        assert(edition_suffix(3) == s);
        lemma_ends_differ(v, s, edition_suffix(0), 9);
        assert(strip_edition(v, 0) == strip_edition(v, 1));
        lemma_ends_differ(v, s, edition_suffix(1), 8);
        assert(strip_edition(v, 1) == strip_edition(v, 2));
        lemma_ends_differ(v, s, edition_suffix(2), 9);
        assert(strip_edition(v, 2) == strip_edition(v, 3));
        assert(strip_edition(v, 3) == trim_end_separators(y));
    }
    if s == "complete edition"@ {
        assert(edition_suffix(4) == s);
        lemma_ends_differ(v, s, edition_suffix(0), 9);
        assert(strip_edition(v, 0) == strip_edition(v, 1));
        lemma_ends_differ(v, s, edition_suffix(1), 8);
        assert(strip_edition(v, 1) == strip_edition(v, 2));
        lemma_ends_differ(v, s, edition_suffix(2), 9);
        assert(strip_edition(v, 2) == strip_edition(v, 3));
        assert("complete edition"@[5] == 'e' && "ultimate edition"@[5] == 'a');
        lemma_ends_differ(v, s, edition_suffix(3), 10);
        assert(strip_edition(v, 3) == strip_edition(v, 4));
        assert(strip_edition(v, 4) == trim_end_separators(y));
    }
    if s == "deluxe edition"@ {
        assert(edition_suffix(5) == s);
        lemma_not_digital_deluxe(y);
        assert(strip_edition(v, 0) == strip_edition(v, 1));
        lemma_ends_differ(v, s, edition_suffix(1), 8);
        assert(strip_edition(v, 1) == strip_edition(v, 2));
        lemma_ends_differ(v, s, edition_suffix(2), 9);
        assert(strip_edition(v, 2) == strip_edition(v, 3));
        lemma_ends_differ(v, s, edition_suffix(3), 9);
        assert(strip_edition(v, 3) == strip_edition(v, 4));
        lemma_ends_differ(v, s, edition_suffix(4), 9);
        assert(strip_edition(v, 4) == strip_edition(v, 5));
        assert(strip_edition(v, 5) == trim_end_separators(y));
    }
    if s == "standard edition"@ {
        assert(edition_suffix(6) == s);
        lemma_ends_differ(v, s, edition_suffix(0), 8);
        assert(strip_edition(v, 0) == strip_edition(v, 1));
        lemma_ends_differ(v, s, edition_suffix(1), 8);
        assert(strip_edition(v, 1) == strip_edition(v, 2));
        lemma_ends_differ(v, s, edition_suffix(2), 8);
        assert(strip_edition(v, 2) == strip_edition(v, 3));
        lemma_ends_differ(v, s, edition_suffix(3), 8);
        assert(strip_edition(v, 3) == strip_edition(v, 4));
        lemma_ends_differ(v, s, edition_suffix(4), 8);
        assert(strip_edition(v, 4) == strip_edition(v, 5));
        lemma_ends_differ(v, s, edition_suffix(5), 8);
        assert(strip_edition(v, 5) == strip_edition(v, 6));
        assert(strip_edition(v, 6) == trim_end_separators(y));
    }
    if s == "goty edition"@ {
        assert(edition_suffix(7) == s);
        lemma_ends_differ(v, s, edition_suffix(0), 8);
        assert(strip_edition(v, 0) == strip_edition(v, 1));
        lemma_ends_differ(v, s, edition_suffix(1), 8);
        assert(strip_edition(v, 1) == strip_edition(v, 2));
        lemma_ends_differ(v, s, edition_suffix(2), 8);
        assert(strip_edition(v, 2) == strip_edition(v, 3));
        lemma_ends_differ(v, s, edition_suffix(3), 8);
        assert(strip_edition(v, 3) == strip_edition(v, 4));
        lemma_ends_differ(v, s, edition_suffix(4), 8);
        assert(strip_edition(v, 4) == strip_edition(v, 5));
        lemma_ends_differ(v, s, edition_suffix(5), 8);
        assert(strip_edition(v, 5) == strip_edition(v, 6));
        lemma_ends_differ(v, s, edition_suffix(6), 8);
        assert(strip_edition(v, 6) == strip_edition(v, 7));
        assert(strip_edition(v, 7) == trim_end_separators(y));
    }
    if s == "remastered"@ {
        assert(edition_suffix(8) == s);
        lemma_ends_differ(v, s, edition_suffix(0), 0);
        assert(strip_edition(v, 0) == strip_edition(v, 1));
        lemma_ends_differ(v, s, edition_suffix(1), 0);
        assert(strip_edition(v, 1) == strip_edition(v, 2));
        lemma_ends_differ(v, s, edition_suffix(2), 0);
        assert(strip_edition(v, 2) == strip_edition(v, 3));
        lemma_ends_differ(v, s, edition_suffix(3), 0);
        assert(strip_edition(v, 3) == strip_edition(v, 4));
        lemma_ends_differ(v, s, edition_suffix(4), 0);
        assert(strip_edition(v, 4) == strip_edition(v, 5));
        lemma_ends_differ(v, s, edition_suffix(5), 0);
        assert(strip_edition(v, 5) == strip_edition(v, 6));
        lemma_ends_differ(v, s, edition_suffix(6), 0);
        assert(strip_edition(v, 6) == strip_edition(v, 7));
        lemma_ends_differ(v, s, edition_suffix(7), 0);
        assert(strip_edition(v, 7) == strip_edition(v, 8));
        assert(strip_edition(v, 8) == trim_end_separators(y));
    }
    if s == "remaster"@ {
        assert(edition_suffix(9) == s);
        lemma_ends_differ(v, s, edition_suffix(0), 0);
        assert(strip_edition(v, 0) == strip_edition(v, 1));
        lemma_ends_differ(v, s, edition_suffix(1), 0);
        assert(strip_edition(v, 1) == strip_edition(v, 2));
        lemma_ends_differ(v, s, edition_suffix(2), 0);
        assert(strip_edition(v, 2) == strip_edition(v, 3));
        lemma_ends_differ(v, s, edition_suffix(3), 0);
        assert(strip_edition(v, 3) == strip_edition(v, 4));
        lemma_ends_differ(v, s, edition_suffix(4), 0);
        assert(strip_edition(v, 4) == strip_edition(v, 5));
        lemma_ends_differ(v, s, edition_suffix(5), 0);
        assert(strip_edition(v, 5) == strip_edition(v, 6));
        lemma_ends_differ(v, s, edition_suffix(6), 0);
        assert(strip_edition(v, 6) == strip_edition(v, 7));
        lemma_ends_differ(v, s, edition_suffix(7), 0);
        assert(strip_edition(v, 7) == strip_edition(v, 8));
        lemma_ends_differ(v, s, edition_suffix(8), 0);
        assert(strip_edition(v, 8) == strip_edition(v, 9));
        assert(strip_edition(v, 9) == trim_end_separators(y));
    }
}


/// Normalising a title whose cleaned form (signs removed, lower case,
/// single spaces) is `y`, a space and a listed edition suffix gives the
/// normalised form of `y` without its closing separators: the suffix is
/// dropped (`Age of Empires II: Definitive Edition` gives
/// `age of empires ii`).
pub proof fn law_normalize_drops_edition(title: Seq<char>, y: Seq<char>, s: Seq<char>)
    requires
        listed_edition_suffix(s),
        trim_end_separators(y).len() > 0,
        s == "deluxe edition"@ ==> !ends_with(y, "digital"@),
        spec_cleanup(title) == y + " "@ + s,
    ensures
        spec_normalize(title) == collapse(blank_non_alnum(trim_end_separators(y))),
{
    law_edition_suffix_stripped(y, s);
}

/// The same game under an edition name is recognised as the plain one: a
/// title that cleans to the cleaned `base`, a space and a listed edition
/// suffix normalises to what `base` does, when `base` itself carries no
/// edition suffix and does not end with a separator.
pub proof fn law_edition_is_same_game(title: Seq<char>, base: Seq<char>, s: Seq<char>)
    requires
        listed_edition_suffix(s),
        spec_cleanup(base).len() > 0,
        !is_edition_separator(spec_cleanup(base).last()),
        strip_edition(spec_cleanup(base), 0) == spec_cleanup(base),
        s == "deluxe edition"@ ==> !ends_with(spec_cleanup(base), "digital"@),
        spec_cleanup(title) == spec_cleanup(base) + " "@ + s,
    ensures
        spec_normalize(title) == spec_normalize(base),
{
    let y = spec_cleanup(base);
    assert(trim_end_separators(y) == y);
    law_edition_suffix_stripped(y, s);
}

proof fn lemma_strip_from(v: Seq<char>, k: int)
    requires
        0 <= k <= edition_suffix_count(),
    ensures
        strip_edition(v, k) != v ==> exists|m: int|
            k <= m < edition_suffix_count() && ends_with(v, #[trigger] edition_suffix(m))
                && strip_edition(v, k) == before_suffix(v, m),
    decreases edition_suffix_count() - k,
{
    if k < edition_suffix_count() {
        lemma_strip_from(v, k + 1);
        if strip_edition(v, k) != v && ends_with(v, edition_suffix(k)) && before_suffix(v, k).len() > 0 {
            assert(ends_with(v, edition_suffix(k)));
        }
    }
}

/// Only the listed edition suffixes are ever stripped: a title that
/// normalisation shortens ends with one of them, and loses exactly that
/// suffix with the separators before it.
pub proof fn law_only_listed_editions_stripped(v: Seq<char>)
    ensures
        strip_edition(v, 0) != v ==> exists|s: Seq<char>|
            #[trigger] listed_edition_suffix(s) && ends_with(v, s) && strip_edition(v, 0)
                == trim_end_separators(v.take(v.len() - s.len())),
{
    lemma_strip_from(v, 0);
    if strip_edition(v, 0) != v {
        let m = choose|m: int|
            0 <= m < edition_suffix_count() && ends_with(v, #[trigger] edition_suffix(m))
                && strip_edition(v, 0) == before_suffix(v, m);
        assert(listed_edition_suffix(edition_suffix(m)));
    }
}

/// The characters dropped between a title and a stripped edition suffix are
/// exactly whitespace, `-`, `:`, the en and em dashes, `(` and `[`.
pub proof fn law_edition_separators(c: char)
    ensures
        is_edition_separator(c) <==> (is_ws(c) || c == '-' || c == ':' || c == '\u{2013}' || c
            == '\u{2014}' || c == '(' || c == '['),
{
}

/// The signs removed from titles are exactly the trade mark sign, the
/// registered sign and the copyright sign (`is_mark`, U+2122, U+00AE and
/// U+00A9): every other character is kept, in order.
pub proof fn law_marks_removed(s: Seq<char>)
    ensures
        forall|c: char| is_mark(c) <==> (c == '\u{2122}' || c == '\u{ae}' || c == '\u{a9}'),
        without_marks(s) == s.filter(|c: char| !is_mark(c)),
    decreases s.len(),
{
    let pred = |c: char| !is_mark(c);
    reveal(Seq::filter);
    if s.len() > 0 {
        law_marks_removed(s.drop_last());
        assert(s.filter(pred) == if pred(s.last()) {
            s.drop_last().filter(pred).push(s.last())
        } else {
            s.drop_last().filter(pred)
        });
    } else {
        assert(s.filter(pred) == s);
    }
}

} // verus!
