//! The text form of a mapping: one line for each entry, in the ascending
//! order of the keys, with the arrows in one column.

use crate::entries::ascending;
use crate::entries::ascending_unique;
use crate::entries::entry_keys;
use crate::entries::entry_keys_listed;
use crate::entries::entry_map;
use crate::entries::entry_map_at;
use crate::entries::lists_keys;
use crate::expression::Expression;
use crate::expression::ExpressionView;
use crate::hash_map::HashMap;
use crate::symbol::byte_len;
use crate::symbol::Symbol;
use vstd::prelude::*;
use vstd::string::*;

verus! {

/// The keys of `table` in ascending order.
pub open spec fn sorted_keys<V>(table: Map<Seq<char>, V>) -> Seq<Seq<char>> {
    choose|keys: Seq<Seq<char>>| lists_keys(keys, table)
}

/// The greatest length in bytes among `keys`, 0 where there is none.
pub open spec fn widest(keys: Seq<Seq<char>>) -> nat
    decreases keys.len(),
{
    if keys.len() == 0 {
        0
    } else {
        let rest = widest(keys.drop_last());
        if byte_len(keys.last()) > rest {
            byte_len(keys.last())
        } else {
            rest
        }
    }
}

/// `count` spaces.
pub open spec fn spaces(count: nat) -> Seq<char> {
    Seq::new(count, |i: int| ' ')
}

/// `name` with spaces in front of it, as many as it has characters less than
/// `width`.
pub open spec fn right_aligned(name: Seq<char>, width: nat) -> Seq<char> {
    if name.len() < width {
        spaces((width - name.len()) as nat) + name
    } else {
        name
    }
}

/// The line of one entry: the key aligned to `width`, an arrow, and the
/// rendering of the value.
pub open spec fn line<E>(key: Seq<char>, width: nat, value: ExpressionView<E>) -> Seq<char> {
    right_aligned(key, width) + " -> "@ + value.text()
}

/// The lines of the entries of `table` under `keys`, in the order of `keys`.
pub open spec fn lines<E>(
    table: Map<Seq<char>, ExpressionView<E>>,
    keys: Seq<Seq<char>>,
    width: nat,
) -> Seq<Seq<char>> {
    Seq::new(keys.len(), |i: int| line(keys[i], width, table[keys[i]]))
}

/// The lines with a line break between each two, and none at the end.
pub open spec fn joined(lines: Seq<Seq<char>>) -> Seq<char>
    decreases lines.len(),
{
    if lines.len() == 0 {
        Seq::empty()
    } else if lines.len() == 1 {
        lines[0]
    } else {
        joined(lines.drop_last()) + seq!['\n'] + lines.last()
    }
}

/// The text form of `table`.
pub open spec fn rendered<E>(table: Map<Seq<char>, ExpressionView<E>>) -> Seq<char> {
    let keys = sorted_keys(table);
    joined(lines(table, keys, widest(keys)))
}

/// The keys of ascending entries are the sorted keys of their table.
proof fn entry_keys_sorted<E>(entries: Seq<(Symbol, Expression<E>)>)
    requires
        ascending(entry_keys(entries)),
    ensures
        sorted_keys(entry_map(entries)) == entry_keys(entries),
        lists_keys(sorted_keys(entry_map(entries)), entry_map(entries)),
{
    let keys = entry_keys(entries);
    let table = entry_map(entries);
    entry_keys_listed(entries);
    assert(lists_keys(sorted_keys(table), table));
    ascending_unique(sorted_keys(table), keys);
}

/// The greatest length in bytes among the keys of `entries`.
fn widest_key<E>(entries: &Vec<(Symbol, Expression<E>)>) -> (width: usize)
    ensures
        width == widest(entry_keys(entries@)),
{
    let ghost keys = entry_keys(entries@);
    let mut width: usize = 0;
    let mut i: usize = 0;
    while i < entries.len()
        invariant
            i <= entries@.len(),
            keys == entry_keys(entries@),
            width == widest(keys.take(i as int)),
        decreases entries@.len() - i,
    {
        let length = entries[i].0.len();
        proof {
            assert(keys.take(i + 1).drop_last() =~= keys.take(i as int));
        }
        if length > width {
            width = length;
        }
        i += 1;
    }
    proof {
        assert(keys.take(i as int) =~= keys);
    }
    width
}

/// Appends `count` spaces to `text`.
fn push_spaces(text: &mut String, count: usize)
    ensures
        final(text)@ == old(text)@ + spaces(count as nat),
{
    let ghost start = text@;
    let mut done: usize = 0;
    proof {
        assert(text@ =~= start + spaces(0));
    }
    while done < count
        invariant
            done <= count,
            text@ == start + spaces(done as nat),
        decreases count - done,
    {
        text.append(" ");
        proof {
            reveal_strlit(" ");
            assert(text@ =~= start + spaces((done + 1) as nat));
        }
        done += 1;
    }
}

/// Appends the line of one entry to `text`.
fn push_line<E>(text: &mut String, key: &Symbol, width: usize, value: &Expression<E>)
    ensures
        final(text)@ == old(text)@ + line(key@, width as nat, value@),
{
    let ghost start = text@;
    let name = key.as_str();
    let length = name.unicode_len();
    if length < width {
        push_spaces(text, width - length);
    }
    text.append(name);
    text.append(" -> ");
    text.append(value.text());
    proof {
        assert(text@ =~= start + line(key@, width as nat, value@));
    }
}

impl<E> HashMap<E> {
    /// The text form of this mapping: one line for each entry, in the
    /// ascending order of the keys, with a line break between each two and
    /// none at the end. A line holds the key, an arrow and the rendering of
    /// the value; spaces in front of the shorter keys bring all arrows into
    /// one column. A mapping without entries gives the empty text.
    pub fn render(&self) -> (text: String)
        ensures
            lists_keys(sorted_keys(self@), self@),
            text@ == rendered(self@),
    {
        let entries = self.entries();
        let ghost keys = entry_keys(entries@);
        let width = widest_key(entries);
        let ghost all = lines(self@, keys, width as nat);
        proof {
            entry_keys_sorted(entries@);
        }
        let mut text = String::new();
        let mut i: usize = 0;
        while i < entries.len()
            invariant
                i <= entries@.len(),
                ascending(entry_keys(entries@)),
                keys == entry_keys(entries@),
                self@ == entry_map(entries@),
                all == lines(self@, keys, width as nat),
                text@ == joined(all.take(i as int)),
            decreases entries@.len() - i,
        {
            let ghost before = text@;
            if i > 0 {
                text.append("\n");
            }
            push_line(&mut text, &entries[i].0, width, &entries[i].1);
            proof {
                reveal_strlit("\n");
                entry_map_at(entries@, i as int);
                assert(all.take(i + 1).drop_last() =~= all.take(i as int));
                assert(all.take(i + 1).last() == line(
                    keys[i as int],
                    width as nat,
                    self@[keys[i as int]],
                ));
                if i == 0 {
                    assert(text@ =~= all[0]);
                } else {
                    assert(text@ =~= before + seq!['\n'] + all[i as int]);
                }
            }
            i += 1;
        }
        proof {
            assert(all.take(i as int) =~= all);
        }
        text
    }
}

} // verus!
