//! The command that lists the labels of the loaded program with their
//! addresses.
//!
//! Labels that the kernel support code brings along are left out. The rest
//! is listed by rising address, labels of one address in the order in which
//! they were given, first those of the text segment and then those of the
//! data segment, which starts at an address that the caller names.

use crate::lex::push_char;
use crate::command::CommandError;
use crate::session::{Session, SessionState};
use vstd::prelude::*;
use vstd::string::{StrSliceExecFns, StringExecFns};

verus! {

/// A label with its address.
pub type Entry = (String, u32);

/// What the names of the kernel's own labels start with.
pub open spec fn kernel_prefix() -> Seq<char> {
    seq!['k', 'e', 'r', 'n', 'e', 'l', '_', '_']
}

/// Whether a label belongs to the kernel support code and is not shown.
pub open spec fn hidden(name: Seq<char>) -> bool {
    name.len() >= 8 && name.subrange(0, 8) == kernel_prefix()
}

/// The labels that are shown, in the order given.
pub open spec fn visible(labels: Seq<Entry>) -> Seq<Entry>
    decreases labels.len(),
{
    if labels.len() == 0 {
        Seq::empty()
    } else if hidden(labels.last().0@) {
        visible(labels.drop_last())
    } else {
        visible(labels.drop_last()).push(labels.last())
    }
}

/// `sorted` with `entry` put in behind the last label whose address is not
/// above its own.
pub open spec fn placed(sorted: Seq<Entry>, entry: Entry) -> Seq<Entry>
    decreases sorted.len(),
{
    if sorted.len() == 0 {
        seq![entry]
    } else if sorted.last().1 <= entry.1 {
        sorted.push(entry)
    } else {
        placed(sorted.drop_last(), entry).push(sorted.last())
    }
}

/// The labels by rising address, labels of one address in the order given.
pub open spec fn ordered(labels: Seq<Entry>) -> Seq<Entry>
    decreases labels.len(),
{
    if labels.len() == 0 {
        Seq::empty()
    } else {
        placed(ordered(labels.drop_last()), labels.last())
    }
}

/// Whether addresses never fall from one label to the next.
pub open spec fn rising(labels: Seq<Entry>) -> bool {
    forall|i: int, j: int| 0 <= i <= j < labels.len() ==> labels[i].1 <= labels[j].1
}

/// The length of the longest name, 0 where there is none.
pub open spec fn widest(labels: Seq<Entry>) -> nat
    decreases labels.len(),
{
    if labels.len() == 0 {
        0
    } else if labels.last().0@.len() > widest(labels.drop_last()) {
        labels.last().0@.len()
    } else {
        widest(labels.drop_last())
    }
}

/// How many labels have an address below `limit`.
pub open spec fn count_below(labels: Seq<Entry>, limit: u32) -> nat
    decreases labels.len(),
{
    if labels.len() == 0 {
        0
    } else {
        count_below(labels.drop_last(), limit) + if labels.last().1 < limit {
            1nat
        } else {
            0nat
        }
    }
}

/// Putting a label in place keeps addresses rising, adds that label and no
/// other, and leaves the longest name and the count below any limit as
/// they are for the labels taken together.
pub proof fn lemma_placed(sorted: Seq<Entry>, entry: Entry, limit: u32)
    requires
        rising(sorted),
    ensures
        rising(placed(sorted, entry)),
        placed(sorted, entry).to_multiset() == sorted.to_multiset().insert(entry),
        placed(sorted, entry).len() == sorted.len() + 1,
        widest(placed(sorted, entry)) == widest(sorted.push(entry)),
        count_below(placed(sorted, entry), limit) == count_below(sorted.push(entry), limit),
    decreases sorted.len(),
{
    broadcast use vstd::seq_lib::group_to_multiset_ensures;

    if sorted.len() == 0 {
        assert(sorted.push(entry) == seq![entry]);
        assert(sorted.to_multiset() =~= Seq::<Entry>::empty().to_multiset());
    } else if sorted.last().1 <= entry.1 {
        assert forall|i: int, j: int| 0 <= i <= j < sorted.push(entry).len() implies sorted.push(
            entry,
        )[i].1 <= sorted.push(entry)[j].1 by {
            if j == sorted.len() && i < sorted.len() {
                assert(sorted[i].1 <= sorted[sorted.len() - 1].1);
            }
        }
    } else {
        let front = sorted.drop_last();
        let last = sorted.last();
        assert(rising(front)) by {
            assert forall|i: int, j: int| 0 <= i <= j < front.len() implies front[i].1
                <= front[j].1 by {
                assert(sorted[i].1 <= sorted[j].1);
            }
        }
        lemma_placed(front, entry, limit);
        let inner = placed(front, entry);
        let whole = inner.push(last);
        assert(sorted == front.push(last));
        assert(whole.drop_last() == inner);
        assert(sorted.push(entry).drop_last() == sorted);
        assert(front.push(entry).drop_last() == front);
        // every label of `inner` is a label of `front` or `entry`, so none is above `last`
        assert forall|i: int, j: int| 0 <= i <= j < whole.len() implies whole[i].1
            <= whole[j].1 by {
            if j == inner.len() && i < inner.len() {
                assert(inner.to_multiset().count(inner[i]) > 0);
                if inner[i] != entry {
                    assert(front.to_multiset().count(inner[i]) > 0);
                    let k = choose|k: int| 0 <= k < front.len() && front[k] == inner[i];
                    assert(sorted[k].1 <= sorted[sorted.len() - 1].1);
                }
            }
        }
        assert(whole.to_multiset() =~= sorted.to_multiset().insert(entry));
        assert(whole.last() == last);
        assert(sorted.push(entry).last() == entry);
        assert(front.push(entry).last() == entry);
        assert(widest(whole) == if last.0@.len() > widest(inner) {
            last.0@.len()
        } else {
            widest(inner)
        });
        assert(widest(front.push(entry)) == if entry.0@.len() > widest(front) {
            entry.0@.len()
        } else {
            widest(front)
        });
        assert(widest(sorted.push(entry)) == if entry.0@.len() > widest(sorted) {
            entry.0@.len()
        } else {
            widest(sorted)
        });
        assert(count_below(whole, limit) == count_below(inner, limit) + if last.1 < limit {
            1nat
        } else {
            0nat
        });
        assert(count_below(front.push(entry), limit) == count_below(front, limit) + if entry.1
            < limit {
            1nat
        } else {
            0nat
        });
        assert(count_below(sorted.push(entry), limit) == count_below(sorted, limit) + if entry.1
            < limit {
            1nat
        } else {
            0nat
        });
    }
}

/// The ordered labels rise in address, are the labels given, each as often
/// as it was given, and have the same longest name and the same count below
/// any limit.
pub proof fn lemma_ordered(labels: Seq<Entry>, limit: u32)
    ensures
        rising(ordered(labels)),
        ordered(labels).to_multiset() == labels.to_multiset(),
        ordered(labels).len() == labels.len(),
        widest(ordered(labels)) == widest(labels),
        count_below(ordered(labels), limit) == count_below(labels, limit),
    decreases labels.len(),
{
    broadcast use vstd::seq_lib::group_to_multiset_ensures;

    if labels.len() == 0 {
    } else {
        let front = labels.drop_last();
        lemma_ordered(front, limit);
        lemma_placed(ordered(front), labels.last(), limit);
        assert(labels == front.push(labels.last()));
        assert(ordered(front).push(labels.last()).drop_last() == ordered(front));
    }
}

/// In labels of rising address, those below a limit come first: the count
/// of them is where the others start.
pub proof fn lemma_count_below_splits(labels: Seq<Entry>, limit: u32)
    requires
        rising(labels),
    ensures
        count_below(labels, limit) <= labels.len(),
        forall|i: int| 0 <= i < count_below(labels, limit) ==> (#[trigger] labels[i]).1 < limit,
        forall|i: int|
            count_below(labels, limit) <= i < labels.len() ==> (#[trigger] labels[i]).1 >= limit,
    decreases labels.len(),
{
    if labels.len() > 0 {
        let front = labels.drop_last();
        assert(rising(front)) by {
            assert forall|i: int, j: int| 0 <= i <= j < front.len() implies front[i].1
                <= front[j].1 by {
                assert(labels[i].1 <= labels[j].1);
            }
        }
        lemma_count_below_splits(front, limit);
        assert forall|i: int| 0 <= i < count_below(labels, limit) implies (#[trigger] labels[i]).1
            < limit by {
            if i < front.len() {
                assert(labels[i] == front[i]);
                if i >= count_below(front, limit) {
                    assert(labels[i].1 <= labels[labels.len() - 1].1);
                }
            }
        }
        assert forall|i: int| count_below(labels, limit) <= i < labels.len() implies (
        #[trigger] labels[i]).1 >= limit by {
            if i < front.len() {
                assert(labels[i] == front[i]);
            }
        }
    }
}

/// What the command shows.
#[derive(Debug, Clone, PartialEq)]
pub struct LabelListing {
    /// The labels shown, by rising address.
    pub entries: Vec<(String, u32)>,
    /// The length of the longest name shown, to which names are padded.
    pub width: usize,
    /// How many of the labels lie in the text segment. They come first;
    /// those of the data segment follow under a heading of their own.
    pub text_count: usize,
}

/// What the command shows for the labels given, where the data segment
/// starts at `data_bot`: those that are visible, by rising address.
pub open spec fn listing_of(labels: Seq<Entry>, data_bot: u32, listing: LabelListing) -> bool {
    &&& listing.entries@ == ordered(visible(labels))
    &&& listing.width == widest(visible(labels))
    &&& listing.text_count == count_below(visible(labels), data_bot)
}

/// What a listing is good for: its labels rise in address, those below
/// `data_bot` come first and are `text_count` in number, and no name is
/// longer than `width`.
pub open spec fn well_formed(listing: LabelListing, data_bot: u32) -> bool {
    &&& rising(listing.entries@)
    &&& listing.text_count <= listing.entries@.len()
    &&& forall|i: int|
        0 <= i < listing.entries@.len() ==> ((#[trigger] listing.entries@[i]).1 < data_bot <==> i
            < listing.text_count)
    &&& forall|i: int|
        0 <= i < listing.entries@.len() ==> (#[trigger] listing.entries@[i]).0@.len()
            <= listing.width
}

/// No name is longer than the longest.
pub proof fn lemma_widest(labels: Seq<Entry>)
    ensures
        forall|i: int| 0 <= i < labels.len() ==> (#[trigger] labels[i]).0@.len() <= widest(labels),
    decreases labels.len(),
{
    if labels.len() > 0 {
        lemma_widest(labels.drop_last());
        assert forall|i: int| 0 <= i < labels.len() implies (#[trigger] labels[i]).0@.len()
            <= widest(labels) by {
            if i < labels.len() - 1 {
                assert(labels[i] == labels.drop_last()[i]);
            }
        }
    }
}

/// The listing of any labels is well formed, and holds the visible labels,
/// each as often as it was given.
pub proof fn lemma_listing(labels: Seq<Entry>, data_bot: u32, listing: LabelListing)
    requires
        listing_of(labels, data_bot, listing),
    ensures
        well_formed(listing, data_bot),
        listing.entries@.to_multiset() == visible(labels).to_multiset(),
{
    lemma_ordered(visible(labels), data_bot);
    lemma_count_below_splits(listing.entries@, data_bot);
    lemma_widest(listing.entries@);
}

/// Whether a label belongs to the kernel support code and is not shown.
pub fn is_hidden(name: &str) -> (r: bool)
    ensures
        r == hidden(name@),
{
    if name.unicode_len() < 8 {
        return false;
    }
    let r = name.get_char(0) == 'k' && name.get_char(1) == 'e' && name.get_char(2) == 'r'
        && name.get_char(3) == 'n' && name.get_char(4) == 'e' && name.get_char(5) == 'l'
        && name.get_char(6) == '_' && name.get_char(7) == '_';
    proof {
        let head = name@.subrange(0, 8);
        if r {
            assert(head =~= kernel_prefix());
        } else {
            assert(head[0] == name@[0] && head[1] == name@[1] && head[2] == name@[2] && head[3]
                == name@[3] && head[4] == name@[4] && head[5] == name@[5] && head[6] == name@[6]
                && head[7] == name@[7]);
            assert(kernel_prefix()[0] == 'k' && kernel_prefix()[1] == 'e' && kernel_prefix()[2]
                == 'r' && kernel_prefix()[3] == 'n' && kernel_prefix()[4] == 'e'
                && kernel_prefix()[5] == 'l' && kernel_prefix()[6] == '_' && kernel_prefix()[7]
                == '_');
        }
    }
    r
}

/// Puts `entry` in its place among labels of rising address.
fn place(sorted: &mut Vec<(String, u32)>, entry: (String, u32))
    ensures
        final(sorted)@ == placed(old(sorted)@, entry),
{
    let mut at: usize = sorted.len();
    proof {
        assert(sorted@.take(at as int) == sorted@);
        assert(sorted@.skip(at as int) =~= Seq::<Entry>::empty());
        assert(placed(sorted@, entry) + Seq::<Entry>::empty() == placed(sorted@, entry));
    }
    while at > 0 && sorted[at - 1].1 > entry.1
        invariant
            at <= sorted@.len(),
            sorted@ == old(sorted)@,
            placed(sorted@, entry) == placed(sorted@.take(at as int), entry) + sorted@.skip(at as int),
        decreases at,
    {
        proof {
            let head = sorted@.take(at as int);
            assert(head.drop_last() == sorted@.take(at - 1));
            assert(placed(head, entry) == placed(head.drop_last(), entry).push(head.last()));
            assert(placed(head.drop_last(), entry).push(head.last()) + sorted@.skip(at as int)
                == placed(head.drop_last(), entry) + sorted@.skip(at - 1));
        }
        at = at - 1;
    }
    proof {
        let head = sorted@.take(at as int);
        if at == 0 {
            assert(placed(head, entry) == seq![entry]);
        } else {
            assert(head.last() == sorted@[at - 1]);
            assert(placed(head, entry) == head.push(entry));
        }
        assert(placed(head, entry) + sorted@.skip(at as int) == sorted@.insert(at as int, entry));
    }
    sorted.insert(at, entry);
}

/// Lists the labels of the loaded program: those that are visible, by
/// rising address, with the width to pad names to and the number of labels
/// in the text segment, which are those below `data_bot`. Fails where no
/// program is loaded.
///
/// `labels` holds the label table in any order.
pub fn labels_command(session: &Session, labels: &Vec<(String, u32)>, data_bot: u32) -> (r: Result<
    LabelListing,
    CommandError,
>)
    ensures
        session@.state == SessionState::NoProgramLoaded ==> r == Err::<LabelListing, CommandError>(
            CommandError::MustLoadFile,
        ),
        session@.state != SessionState::NoProgramLoaded ==> (r matches Ok(listing) && listing_of(
            labels@,
            data_bot,
            listing,
        ) && well_formed(listing, data_bot) && listing.entries@.to_multiset() == visible(
            labels@,
        ).to_multiset()),
{
    if session.state() == SessionState::NoProgramLoaded {
        return Err(CommandError::MustLoadFile);
    }
    let mut entries: Vec<(String, u32)> = Vec::new();
    let mut width: usize = 0;
    let mut text_count: usize = 0;
    let mut k: usize = 0;
    while k < labels.len()
        invariant
            k <= labels@.len(),
            entries@ == ordered(visible(labels@.take(k as int))),
            width == widest(visible(labels@.take(k as int))),
            text_count == count_below(visible(labels@.take(k as int)), data_bot),
            text_count <= k,
        decreases labels@.len() - k,
    {
        proof {
            assert(labels@.take(k + 1).drop_last() == labels@.take(k as int));
            assert(labels@.take(k + 1).last() == labels@[k as int]);
            assert(visible(labels@.take(k as int)).push(labels@[k as int]).drop_last() == visible(
                labels@.take(k as int),
            ));
        }
        if !is_hidden(labels[k].0.as_str()) {
            let length = labels[k].0.as_str().unicode_len();
            if length > width {
                width = length;
            }
            if labels[k].1 < data_bot {
                text_count = text_count + 1;
            }
            place(&mut entries, (labels[k].0.clone(), labels[k].1));
        }
        k = k + 1;
    }
    let listing = LabelListing { entries, width, text_count };
    proof {
        assert(labels@.take(k as int) == labels@);
        lemma_listing(labels@, data_bot, listing);
    }
    Ok(listing)
}

/// The lowercase hexadecimal digit of `d`, for `d` below sixteen.
pub open spec fn hex_char(d: int) -> char {
    if d < 10 {
        ((48 + d) as u8) as char
    } else {
        ((87 + d) as u8) as char
    }
}

/// An address written as it is listed: `0x` and eight lowercase hexadecimal
/// digits, the most significant first.
pub open spec fn address_text(address: u32) -> Seq<char> {
    seq!['0', 'x'] + Seq::new(8, |k: int| hex_char((address as int / pow16(7 - k)) % 16))
}

/// Sixteen to the power `k`, for `k` up to seven.
pub open spec fn pow16(k: int) -> int {
    if k <= 0 {
        1
    } else if k == 1 {
        0x10
    } else if k == 2 {
        0x100
    } else if k == 3 {
        0x1000
    } else if k == 4 {
        0x1_0000
    } else if k == 5 {
        0x10_0000
    } else if k == 6 {
        0x100_0000
    } else {
        0x1000_0000
    }
}

/// Writes an address as it is listed.
pub fn format_address(address: u32) -> (text: String)
    ensures
        text@ == address_text(address),
{
    let mut text = String::new();
    push_char(&mut text, '0');
    push_char(&mut text, 'x');
    let divisors: [u32; 8] = [
        0x1000_0000,
        0x100_0000,
        0x10_0000,
        0x1_0000,
        0x1000,
        0x100,
        0x10,
        1,
    ];
    let mut k: usize = 0;
    while k < 8
        invariant
            k <= 8,
            divisors@.len() == 8,
            forall|j: int| 0 <= j < 8 ==> divisors@[j] == pow16(7 - j),
            text@ == seq!['0', 'x'] + Seq::new(
                k as nat,
                |j: int| hex_char((address as int / pow16(7 - j)) % 16),
            ),
        decreases 8 - k,
    {
        let digit: u8 = ((address / divisors[k]) % 16) as u8;
        let c: char = if digit < 10 {
            (48 + digit) as char
        } else {
            (87 + digit) as char
        };
        assert(c == hex_char((address as int / pow16(7 - k)) % 16));
        let ghost before = text@;
        push_char(&mut text, c);
        proof {
            assert(text@ =~= seq!['0', 'x'] + Seq::new(
                (k + 1) as nat,
                |j: int| hex_char((address as int / pow16(7 - j)) % 16),
            ));
        }
        k = k + 1;
    }
    text
}

/// A name with spaces behind it up to `width` characters; a name that is
/// longer stays as it is.
pub open spec fn padded(name: Seq<char>, width: nat) -> Seq<char> {
    if name.len() >= width {
        name
    } else {
        name + Seq::new((width - name.len()) as nat, |k: int| ' ')
    }
}

/// Pads a name with spaces up to `width` characters.
pub fn pad_label(name: &str, width: usize) -> (text: String)
    ensures
        text@ == padded(name@, width as nat),
{
    let mut text = String::from_str(name);
    let mut length: usize = name.unicode_len();
    let ghost start = length;
    while length < width
        invariant
            start == name@.len(),
            start <= length,
            length <= width || length == start,
            text@ == name@ + Seq::new((length - start) as nat, |k: int| ' '),
        decreases width - length,
    {
        push_char(&mut text, ' ');
        length = length + 1;
        proof {
            assert(text@ =~= name@ + Seq::new((length - start) as nat, |k: int| ' '));
        }
    }
    proof {
        assert(text@ =~= padded(name@, width as nat));
    }
    text
}

} // verus!
