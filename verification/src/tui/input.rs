//! The line the user types in: its text and a cursor kept as a byte offset
//! at a character boundary, and how the editing keys change them.
use vstd::prelude::*;
use crate::text::{chars_of, fit_count, lemma_fit_count, lemma_str_len, slice_vec, string_of, utf8_len, utf8_width};

verus! {

/// A key the interface reacts to.
#[derive(Debug, Clone, Copy, PartialEq, Eq, Structural)]
pub enum Key {
    /// A character, and whether Control was held.
    Char(char, bool),
    Esc,
    Enter,
    Backspace,
    Delete,
    Left,
    Right,
    PageUp,
    PageDown,
    Home,
    End,
    /// Any other key.
    Other,
}

/// The byte offset `cursor` falls between two characters of `s` (or at an end).
pub open spec fn on_boundary(s: Seq<char>, cursor: nat) -> bool {
    utf8_len(s.take(fit_count(s, cursor) as int)) == cursor
}

/// The text and the cursor after an editing key: a character goes in at the
/// cursor, which moves past it; Backspace removes the character before the
/// cursor and Delete the one after it; the arrows move by one character;
/// Home and End go to the ends. Keys that cannot act leave both unchanged.
pub open spec fn edited(s: Seq<char>, cursor: nat, key: Key) -> (Seq<char>, nat) {
    let i = fit_count(s, cursor) as int;
    match key {
        Key::Char(ch, _) => (s.take(i) + seq![ch] + s.skip(i), cursor + utf8_width(ch)),
        Key::Backspace => if cursor > 0 { (s.take(i - 1) + s.skip(i), utf8_len(s.take(i - 1))) } else { (s, cursor) },
        Key::Delete => if cursor < utf8_len(s) { (s.take(i) + s.skip(i + 1), cursor) } else { (s, cursor) },
        Key::Left => if cursor > 0 { (s, utf8_len(s.take(i - 1))) } else { (s, cursor) },
        Key::Right => if cursor < utf8_len(s) { (s, utf8_len(s.take(i + 1))) } else { (s, cursor) },
        Key::Home => (s, 0),
        Key::End => (s, utf8_len(s)),
        _ => (s, cursor),
    }
}

/// The text can take the key without a cut inside a character: a key that
/// edits or moves at the cursor needs the cursor on a boundary, unless it
/// has nothing to do there (Backspace and Left at the start, Delete and Right
/// at or past the end).
pub open spec fn edit_safe(s: Seq<char>, cursor: nat, key: Key) -> bool {
    match key {
        Key::Char(_, _) => on_boundary(s, cursor),
        Key::Backspace => cursor == 0 || on_boundary(s, cursor),
        Key::Left => cursor == 0 || on_boundary(s, cursor),
        Key::Delete => cursor >= utf8_len(s) || on_boundary(s, cursor),
        Key::Right => cursor >= utf8_len(s) || on_boundary(s, cursor),
        _ => true,
    }
}

/// The bytes of two texts one after the other.
pub proof fn lemma_utf8_len_concat(a: Seq<char>, b: Seq<char>)
    ensures
        utf8_len(a + b) == utf8_len(a) + utf8_len(b),
    decreases a.len(),
{
    if a.len() > 0 {
        assert((a + b).drop_first() =~= a.drop_first() + b);
        lemma_utf8_len_concat(a.drop_first(), b);
    } else {
        assert(a + b =~= b);
    }
}

/// A text has at least as many bytes as characters.
proof fn lemma_utf8_len_at_least(s: Seq<char>)
    ensures
        utf8_len(s) >= s.len(),
    decreases s.len(),
{
    if s.len() > 0 {
        lemma_utf8_len_at_least(s.drop_first());
    }
}

/// A longer prefix has more bytes.
pub proof fn lemma_prefix_grows(s: Seq<char>, i: int, j: int)
    requires
        0 <= i <= j <= s.len(),
    ensures
        utf8_len(s.take(i)) + (j - i) <= utf8_len(s.take(j)),
{
    assert(s.take(j) =~= s.take(i) + s.subrange(i, j));
    lemma_utf8_len_concat(s.take(i), s.subrange(i, j));
    lemma_utf8_len_at_least(s.subrange(i, j));
}

/// The bytes of the first `j + 1` characters.
pub proof fn lemma_prefix_step(s: Seq<char>, j: int)
    requires
        0 <= j < s.len(),
    ensures
        utf8_len(s.take(j + 1)) == utf8_len(s.take(j)) + utf8_width(s[j]),
{
    assert(s.take(j + 1) =~= s.take(j) + seq![s[j]]);
    lemma_utf8_len_concat(s.take(j), seq![s[j]]);
    assert(seq![s[j]].drop_first() =~= Seq::<char>::empty());
    assert(utf8_len(Seq::<char>::empty()) == 0);
    assert(utf8_len(seq![s[j]]) == utf8_width(s[j]) + utf8_len(seq![s[j]].drop_first()));
}

/// The offset at which the first `j` characters end falls on a boundary,
/// and `j` characters fit in it.
pub proof fn lemma_fit_prefix(s: Seq<char>, j: int)
    requires
        0 <= j <= s.len(),
    ensures
        fit_count(s, utf8_len(s.take(j))) == j,
        on_boundary(s, utf8_len(s.take(j))),
{
    let m = utf8_len(s.take(j));
    lemma_fit_count(s, m);
    let f = fit_count(s, m) as int;
    if f < j {
        lemma_prefix_grows(s, f + 1, j);
    }
    if f > j {
        lemma_prefix_grows(s, j, f);
    }
}

/// The whole text ends on a boundary.
pub proof fn lemma_end_boundary(s: Seq<char>)
    ensures
        on_boundary(s, utf8_len(s)),
        fit_count(s, utf8_len(s)) == s.len(),
{
    assert(s.take(s.len() as int) =~= s);
    lemma_fit_prefix(s, s.len() as int);
}

/// The number of characters before a cursor on a boundary.
pub(crate) fn char_index(cs: &Vec<char>, cursor: usize) -> (k: usize)
    requires
        on_boundary(cs@, cursor as nat),
    ensures
        k == fit_count(cs@, cursor as nat),
        k <= cs.len(),
        utf8_len(cs@.take(k as int)) == cursor,
{
    let ghost f = fit_count(cs@, cursor as nat) as int;
    proof {
        lemma_fit_count(cs@, cursor as nat);
        assert(cs@.take(0) =~= Seq::<char>::empty());
    }
    let mut k: usize = 0;
    let mut used: usize = 0;
    while used < cursor
        invariant
            0 <= k <= f <= cs.len(),
            f == fit_count(cs@, cursor as nat),
            utf8_len(cs@.take(f)) == cursor,
            used == utf8_len(cs@.take(k as int)),
            used <= cursor,
        decreases cursor - used,
    {
        proof {
            if k == f {
                assert(false);
            }
            lemma_prefix_step(cs@, k as int);
            lemma_prefix_grows(cs@, k + 1, f);
        }
        used = used + crate::text::utf8_width_exec(cs[k]);
        k = k + 1;
    }
    proof {
        if k < f {
            lemma_prefix_grows(cs@, k as int, f);
            lemma_prefix_grows(cs@, k + 1, f);
            lemma_prefix_step(cs@, k as int);
        }
    }
    k
}

/// The number of bytes of the characters `cs`.
pub(crate) fn byte_len(cs: &Vec<char>) -> (r: usize)
    ensures
        r == utf8_len(cs@),
{
    let s = string_of(cs.as_slice());
    let t = s.as_str();
    proof {
        lemma_str_len(t);
    }
    t.as_bytes().len()
}

/// Whether the text can take the key.
pub fn can_edit(input: &String, cursor: usize, key: Key) -> (r: bool)
    ensures
        r == edit_safe(input@, cursor as nat, key),
{
    let cs = chars_of(input.as_str());
    let total = byte_len(&cs);
    let boundary = on_boundary_exec(&cs, cursor);
    match key {
        Key::Char(_, _) => boundary,
        Key::Backspace => cursor == 0 || boundary,
        Key::Left => cursor == 0 || boundary,
        Key::Delete => cursor >= total || boundary,
        Key::Right => cursor >= total || boundary,
        _ => true,
    }
}

/// Whether `cursor` falls on a boundary of the characters `cs`.
fn on_boundary_exec(cs: &Vec<char>, cursor: usize) -> (r: bool)
    ensures
        r == on_boundary(cs@, cursor as nat),
{
    let mut k: usize = 0;
    let mut used: usize = 0;
    proof {
        assert(cs@.take(0) =~= Seq::<char>::empty());
    }
    while k < cs.len()
        invariant_except_break
            k <= cs.len(),
            used == utf8_len(cs@.take(k as int)),
            used <= cursor,
        ensures
            k <= cs.len(),
            used == utf8_len(cs@.take(k as int)),
            used <= cursor,
            k == cs.len() || used + utf8_width(cs@[k as int]) > cursor,
        decreases cs.len() - k,
    {
        let w = crate::text::utf8_width_exec(cs[k]);
        if w > cursor - used {
            break;
        }
        proof {
            lemma_prefix_step(cs@, k as int);
        }
        used = used + w;
        k = k + 1;
    }
    proof {
        lemma_fit_count(cs@, cursor as nat);
        let f = fit_count(cs@, cursor as nat) as int;
        if k < cs.len() {
            lemma_prefix_step(cs@, k as int);
        }
        if f < k {
            lemma_prefix_grows(cs@, f + 1, k as int);
        }
        if f > k {
            lemma_prefix_grows(cs@, k + 1, f);
        }
        assert(f == k);
    }
    used == cursor
}

/// Applies an editing key to a text and its cursor.
pub fn edit(input: &String, cursor: usize, key: Key) -> (r: (String, usize))
    requires
        edit_safe(input@, cursor as nat, key),
    ensures
        (r.0@, r.1 as nat) == edited(input@, cursor as nat, key),
        on_boundary(input@, cursor as nat) ==> on_boundary(r.0@, r.1 as nat),
{
    let cs = chars_of(input.as_str());
    let total0 = byte_len(&cs);
    proof {
        lemma_end_boundary(cs@);
        lemma_fit_prefix(cs@, 0);
        assert(cs@.take(0) =~= Seq::<char>::empty());
    }
    let stays = match key {
        Key::Backspace => cursor == 0,
        Key::Left => cursor == 0,
        Key::Delete => cursor >= total0,
        Key::Right => cursor >= total0,
        Key::Home => false,
        Key::End => false,
        Key::Char(_, _) => false,
        _ => true,
    };
    if stays {
        return (string_of(cs.as_slice()), cursor);
    }
    match key {
        Key::Home => {
            return (string_of(cs.as_slice()), 0);
        },
        Key::End => {
            return (string_of(cs.as_slice()), total0);
        },
        _ => {},
    }
    let k = char_index(&cs, cursor);
    let ghost s = cs@;
    let n = cs.len();
    let total = byte_len(&cs);
    proof {
        lemma_end_boundary(s);
        lemma_fit_prefix(s, k as int);
    }
    match key {
        Key::Char(ch, _) => {
            let mut before = slice_vec(cs.as_slice(), 0, k);
            before.push(ch);
            let new_cursor = byte_len(&before);
            let after = slice_vec(cs.as_slice(), k, n);
            let mut all = before;
            let mut j: usize = 0;
            let ghost b = all@;
            while j < after.len()
                invariant
                    j <= after.len(),
                    all@ == b + after@.take(j as int),
                decreases after.len() - j,
            {
                all.push(after[j]);
                j += 1;
                assert(all@ =~= b + after@.take(j as int));
            }
            proof {
                assert(after@.take(after.len() as int) =~= after@);
                assert(b =~= s.take(k as int).push(ch));
                assert(all@ =~= s.take(k as int) + seq![ch] + s.skip(k as int));
                assert(all@.take(k + 1) =~= b);
                assert(all@.take(k as int) =~= s.take(k as int));
                assert(all@[k as int] == ch);
                lemma_prefix_step(all@, k as int);
                lemma_fit_prefix(all@, k + 1);
            }
            (string_of(all.as_slice()), new_cursor)
        },
        Key::Backspace => {
            if cursor > 0 {
                let front = slice_vec(cs.as_slice(), 0, k - 1);
                let new_cursor = byte_len(&front);
                let mut all = front;
                let after = slice_vec(cs.as_slice(), k, n);
                let ghost b = all@;
                let mut j: usize = 0;
                while j < after.len()
                    invariant
                        j <= after.len(),
                        all@ == b + after@.take(j as int),
                    decreases after.len() - j,
                {
                    all.push(after[j]);
                    j += 1;
                    assert(all@ =~= b + after@.take(j as int));
                }
                proof {
                    assert(after@.take(after.len() as int) =~= after@);
                    assert(all@ =~= s.take(k - 1) + s.skip(k as int));
                    assert(all@.take(k - 1) =~= s.take(k - 1));
                    lemma_fit_prefix(all@, k - 1);
                }
                (string_of(all.as_slice()), new_cursor)
            } else {
                (string_of(cs.as_slice()), cursor)
            }
        },
        Key::Delete => {
            if cursor < total {
                proof {
                    if k == n {
                        assert(s.take(n as int) =~= s);
                    }
                }
                let mut all = slice_vec(cs.as_slice(), 0, k);
                let after = slice_vec(cs.as_slice(), k + 1, n);
                let ghost b = all@;
                let mut j: usize = 0;
                while j < after.len()
                    invariant
                        j <= after.len(),
                        all@ == b + after@.take(j as int),
                    decreases after.len() - j,
                {
                    all.push(after[j]);
                    j += 1;
                    assert(all@ =~= b + after@.take(j as int));
                }
                proof {
                    assert(after@.take(after.len() as int) =~= after@);
                    assert(all@ =~= s.take(k as int) + s.skip(k + 1));
                    assert(all@.take(k as int) =~= s.take(k as int));
                    lemma_fit_prefix(all@, k as int);
                }
                (string_of(all.as_slice()), cursor)
            } else {
                (string_of(cs.as_slice()), cursor)
            }
        },
        Key::Left => {
            if cursor > 0 {
                let front = slice_vec(cs.as_slice(), 0, k - 1);
                proof {
                    lemma_fit_prefix(s, k - 1);
                }
                (string_of(cs.as_slice()), byte_len(&front))
            } else {
                (string_of(cs.as_slice()), cursor)
            }
        },
        Key::Right => {
            if cursor < total {
                proof {
                    if k == n {
                        assert(s.take(n as int) =~= s);
                    }
                    lemma_fit_prefix(s, k + 1);
                }
                let front = slice_vec(cs.as_slice(), 0, k + 1);
                (string_of(cs.as_slice()), byte_len(&front))
            } else {
                (string_of(cs.as_slice()), cursor)
            }
        },
        Key::Home => {
            proof {
                lemma_fit_prefix(s, 0);
                assert(s.take(0) =~= Seq::<char>::empty());
            }
            (string_of(cs.as_slice()), 0)
        },
        Key::End => (string_of(cs.as_slice()), total),
        _ => (string_of(cs.as_slice()), cursor),
    }
}


/// Backspace right after typing a character takes it out again: the text
/// and the cursor are as before.
pub proof fn law_backspace_undoes_typing(s: Seq<char>, cursor: nat, ch: char, ctrl: bool)
    requires
        on_boundary(s, cursor),
    ensures
        ({
            let (s1, c1) = edited(s, cursor, Key::Char(ch, ctrl));
            edited(s1, c1, Key::Backspace) == (s, cursor)
        }),
{
    let i = fit_count(s, cursor) as int;
    lemma_fit_count(s, cursor);
    let s1 = s.take(i) + seq![ch] + s.skip(i);
    let c1 = cursor + utf8_width(ch);
    assert(s1.take(i + 1) =~= s.take(i).push(ch));
    assert(s1.take(i) =~= s.take(i));
    assert(s1[i] == ch);
    lemma_prefix_step(s1, i);
    lemma_fit_prefix(s1, i + 1);
    assert(s1.take(i) + s1.skip(i + 1) =~= s);
}

/// Moving left and then right comes back to the same place.
pub proof fn law_right_undoes_left(s: Seq<char>, cursor: nat)
    requires
        on_boundary(s, cursor),
        cursor > 0,
    ensures
        ({
            let (s1, c1) = edited(s, cursor, Key::Left);
            edited(s1, c1, Key::Right) == (s, cursor)
        }),
{
    let i = fit_count(s, cursor) as int;
    lemma_fit_count(s, cursor);
    if i == 0 {
        assert(s.take(0) =~= Seq::<char>::empty());
    }
    let c1 = utf8_len(s.take(i - 1));
    lemma_fit_prefix(s, i - 1);
    lemma_prefix_grows(s, i - 1, s.len() as int);
    assert(s.take(s.len() as int) =~= s);
    lemma_prefix_grows(s, i, s.len() as int);
}

} // verus!
