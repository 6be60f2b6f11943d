use vstd::prelude::*;

verus! {

/// The canonical form of a title character: Cyrillic letters that look like
/// Latin ones (Er, ie, Em) stand for those Latin letters.
pub open spec fn canon_spec(c: char) -> char {
    if c == '\u{0420}' {
        'P'
    } else if c == '\u{0435}' {
        'e'
    } else if c == '\u{041C}' {
        'M'
    } else {
        c
    }
}

/// The canonical name of the game whose window is watched.
pub open spec fn target_name() -> Seq<char> {
    seq!['P', 'o', 'k', 'e', 'M', 'M', 'O']
}

/// Whether the canonical name starts at position `i` of `t`, character by
/// character after canonicalisation.
pub open spec fn name_at(t: Seq<char>, i: int) -> bool {
    &&& 0 <= i
    &&& i + target_name().len() <= t.len()
    &&& forall|k: int| 0 <= k < target_name().len() ==> #[trigger] canon_spec(t[i + k]) == target_name()[k]
}

/// Whether a window title names the game somewhere.
pub open spec fn title_matches(t: Seq<char>) -> bool {
    exists|i: int| name_at(t, i)
}

/// A title character in canonical form.
pub fn canon(c: char) -> (r: char)
    ensures
        r == canon_spec(c),
{
    if c == '\u{0420}' {
        'P'
    } else if c == '\u{0435}' {
        'e'
    } else if c == '\u{041C}' {
        'M'
    } else {
        c
    }
}

/// Whether the canonical name starts at position `i` of `t`.
fn name_at_index(t: &Vec<char>, i: usize) -> (r: bool)
    requires
        i + 7 <= t@.len(),
    ensures
        r == name_at(t@, i as int),
{
    let n: usize = t.len();
    let name: [char; 7] = ['P', 'o', 'k', 'e', 'M', 'M', 'O'];
    assert(name@ =~= target_name());
    let mut k: usize = 0;
    while k < 7
        invariant
            i + 7 <= t@.len(),
            n == t@.len(),
            name@ == target_name(),
            k <= 7,
            forall|j: int| 0 <= j < k ==> #[trigger] canon_spec(t@[i + j]) == target_name()[j],
        decreases 7 - k,
    {
        if canon(t[i + k]) != name[k] {
            return false;
        }
        k = k + 1;
    }
    true
}

/// Whether a window title names the game, tolerating look-alike Cyrillic letters.
pub fn is_target_title(t: &Vec<char>) -> (r: bool)
    ensures
        r == title_matches(t@),
{
    let n: usize = t.len();
    let mut i: usize = 0;
    while i <= n && 7 <= n - i
        invariant
            n == t@.len(),
            i <= n,
            forall|j: int| 0 <= j < i ==> !#[trigger] name_at(t@, j),
        decreases n - i,
    {
        if name_at_index(t, i) {
            return true;
        }
        i = i + 1;
    }
    false
}

/// The first window whose title names the game, if any.
pub fn find_target_window(titles: &Vec<Vec<char>>) -> (r: Option<usize>)
    ensures
        r.is_none() == forall|j: int| 0 <= j < titles@.len() ==> !title_matches(#[trigger] titles@[j]@),
        r.is_some() ==> {
            &&& r->0 < titles@.len()
            &&& title_matches(titles@[r->0 as int]@)
            &&& forall|j: int| 0 <= j < r->0 ==> !title_matches(#[trigger] titles@[j]@)
        },
{
    let mut i: usize = 0;
    while i < titles.len()
        invariant
            i <= titles@.len(),
            forall|j: int| 0 <= j < i ==> !title_matches(#[trigger] titles@[j]@),
        decreases titles@.len() - i,
    {
        if is_target_title(&titles[i]) {
            return Some(i);
        }
        i = i + 1;
    }
    None
}

} // verus!
