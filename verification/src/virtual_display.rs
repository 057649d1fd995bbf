//! The list of virtual displays that are switched on, as it is stored.

use crate::text::{
    decimal, decimal_i32, join, join_commas, lemma_decimal_no_comma, lemma_join_split,
    lemma_split_join, lemma_split_no_separator, split, split_commas, texts,
};
use vstd::prelude::*;

verus! {

/// A list without the first occurrence of an item.
pub open spec fn without_first(items: Seq<Seq<char>>, item: Seq<char>) -> Seq<Seq<char>>
    decreases items.len(),
{
    if items.len() == 0 {
        items
    } else if items[0] == item {
        items.skip(1)
    } else {
        seq![items[0]] + without_first(items.skip(1), item)
    }
}

/// The stored list once the display `index` is switched on. Display 0 stands for one that cannot be
/// told from others, so it may come several times.
pub open spec fn switched_on(displays: Seq<char>, index: i32) -> Seq<char> {
    let items = split(displays, ',');
    let item = decimal(index as int);
    if index != 0 && items.contains(item) {
        displays
    } else {
        join(items.push(item), ',')
    }
}

/// The stored list once the display `index` is switched off: -1 stands for all of them, 0 for the
/// last one.
pub open spec fn switched_off(displays: Seq<char>, index: i32) -> Seq<char> {
    let items = split(displays, ',');
    if index == -1 {
        Seq::empty()
    } else if index == 0 {
        join(items.drop_last(), ',')
    } else {
        join(without_first(items, decimal(index as int)), ',')
    }
}

proof fn lemma_without_first_absent(items: Seq<Seq<char>>, item: Seq<char>)
    requires
        !items.contains(item),
    ensures
        without_first(items, item) == items,
    decreases items.len(),
{
    if items.len() > 0 {
        assert(items.contains(items[0]));
        assert forall|i: int| 0 <= i < items.skip(1).len() implies items.skip(1)[i] != item by {
            assert(items[i + 1] != item);
        }
        lemma_without_first_absent(items.skip(1), item);
        assert(without_first(items, item) =~= items);
    }
}

proof fn lemma_without_first_at(items: Seq<Seq<char>>, item: Seq<char>, i: int)
    requires
        0 <= i < items.len(),
        items[i] == item,
        forall|j: int| 0 <= j < i ==> items[j] != item,
    ensures
        without_first(items, item) == items.remove(i),
    decreases i,
{
    if i == 0 {
        assert(items.skip(1) =~= items.remove(0));
    } else {
        assert(items[0] != item);
        lemma_without_first_at(items.skip(1), item, i - 1);
        assert(without_first(items, item) =~= items.remove(i));
    }
}

/// Where a text is in a list.
fn place_of(items: &Vec<String>, item: &String) -> (place: Option<usize>)
    ensures
        match place {
            Some(i) => i < items@.len() && items@[i as int]@ == item@ && forall|j: int|
                0 <= j < i ==> (#[trigger] items@[j])@ != item@,
            None => forall|j: int| 0 <= j < items@.len() ==> (#[trigger] items@[j])@ != item@,
        },
{
    let mut i: usize = 0;
    while i < items.len()
        invariant
            i <= items@.len(),
            forall|j: int| 0 <= j < i ==> (#[trigger] items@[j])@ != item@,
        decreases items@.len() - i,
    {
        if items[i] == *item {
            return Some(i);
        }
        i += 1;
    }
    None
}

/// Whether the list is stored anew when the display `index` is switched.
pub open spec fn is_stored(displays: Seq<char>, index: i32, on: bool) -> bool {
    let listed = split(displays, ',').contains(decimal(index as int));
    if on {
        index == 0 || !listed
    } else if index == -1 {
        displays.len() > 0
    } else {
        index == 0 || listed
    }
}

/// The stored list once the display `index` is switched on or off.
pub open spec fn switched(displays: Seq<char>, index: i32, on: bool) -> Seq<char> {
    if on {
        switched_on(displays, index)
    } else {
        switched_off(displays, index)
    }
}

/// Switches a virtual display on or off in the stored list: the list that is stored from now on,
/// where it is stored anew; else it stays.
pub fn session_update_virtual_display(displays: &str, index: i32, on: bool) -> (changed: Option<
    String,
>)
    ensures
        changed is Some == is_stored(displays@, index, on),
        match changed {
            Some(list) => list@ == switched(displays@, index, on),
            None => displays@ == switched(displays@, index, on),
        },
{
    if !on && index == -1 {
        if displays.is_empty() {
            assert(displays@ =~= Seq::empty());
            return None;
        }
        return Some(String::new());
    }
    let mut items = split_commas(displays);
    let ghost pieces = split(displays@, ',');
    let item = decimal_i32(index);
    proof {
        lemma_join_split(displays@, ',');
        assert forall|j: int| 0 <= j < items@.len() implies pieces[j] == (#[trigger] items@[j])@ by {
            assert(texts(items@)[j] == items@[j]@);
        }
    }
    let place = place_of(&items, &item);
    proof {
        if place is None {
            assert(!pieces.contains(item@));
            lemma_without_first_absent(pieces, item@);
        } else {
            let i = place.unwrap() as int;
            assert(pieces[i] == item@);
            assert forall|j: int| 0 <= j < i implies pieces[j] != item@ by {
                assert(items@[j]@ != item@);
            }
            lemma_without_first_at(pieces, item@, i);
        }
    }
    if on {
        if index != 0 && place.is_some() {
            return None;
        }
        items.push(item);
        assert(texts(items@) =~= pieces.push(item@));
    } else if index == 0 {
        items.pop();
        assert(texts(items@) =~= pieces.drop_last());
    } else {
        match place {
            Some(i) => {
                items.remove(i);
                assert(texts(items@) =~= pieces.remove(i as int));
            },
            None => return None,
        }
    }
    Some(join_commas(&items))
}

/// Switching a display on and then off again leaves the list as it was. (-1 stands for all
/// displays when it is switched off, and a display that is on already stays on when it is switched
/// on.)
pub proof fn lemma_on_then_off(displays: Seq<char>, index: i32)
    requires
        index != -1,
        index == 0 || !split(displays, ',').contains(decimal(index as int)),
    ensures
        switched_off(switched_on(displays, index), index) == displays,
{
    let items = split(displays, ',');
    let item = decimal(index as int);
    let more = items.push(item);
    lemma_join_split(displays, ',');
    lemma_split_no_separator(displays, ',');
    lemma_decimal_no_comma(index as int);
    assert forall|i: int| 0 <= i < more.len() implies !(#[trigger] more[i]).contains(',') by {
        if i < items.len() {
            assert(!items[i].contains(','));
        }
    }
    lemma_split_join(more, ',');
    assert(more.drop_last() =~= items);
    if index != 0 {
        assert forall|j: int| 0 <= j < items.len() implies more[j] != item by {
            assert(items.contains(items[j]));
        }
        lemma_without_first_at(more, item, items.len() as int);
        assert(more.remove(items.len() as int) =~= items);
    }
}

/// Switching a display on that is on already changes nothing, but for display 0, which may come
/// several times.
pub proof fn lemma_on_twice(displays: Seq<char>, index: i32)
    requires
        index != 0,
    ensures
        switched_on(switched_on(displays, index), index) == switched_on(displays, index),
{
    let items = split(displays, ',');
    let item = decimal(index as int);
    if !items.contains(item) {
        let more = items.push(item);
        lemma_split_no_separator(displays, ',');
        lemma_decimal_no_comma(index as int);
        assert forall|i: int| 0 <= i < more.len() implies !(#[trigger] more[i]).contains(',') by {
            if i < items.len() {
                assert(!items[i].contains(','));
            }
        }
        lemma_split_join(more, ',');
        assert(more[items.len() as int] == item);
    }
}

/// Switching a display on adds it behind those that are on, which all stay; one that is on already
/// stays where it is, but for display 0, which is added each time.
pub proof fn lemma_switched_on(displays: Seq<char>, index: i32)
    ensures
        ({
            let before = split(displays, ',');
            let after = split(switched_on(displays, index), ',');
            let item = decimal(index as int);
            &&& index == 0 || !before.contains(item) ==> after == before.push(item)
            &&& index != 0 && before.contains(item) ==> after == before && switched_on(
                displays,
                index,
            ) == displays
        }),
{
    let items = split(displays, ',');
    let item = decimal(index as int);
    let more = items.push(item);
    lemma_split_no_separator(displays, ',');
    lemma_decimal_no_comma(index as int);
    assert forall|i: int| 0 <= i < more.len() implies !(#[trigger] more[i]).contains(',') by {
        if i < items.len() {
            assert(!items[i].contains(','));
        }
    }
    lemma_split_join(more, ',');
}

/// Switching a display off takes the first entry of that display from the list, where there is one,
/// and leaves the others in their order. 0 takes the last entry, -1 all of them.
pub proof fn lemma_switched_off(displays: Seq<char>, index: i32, i: int)
    ensures
        ({
            let before = split(displays, ',');
            let item = decimal(index as int);
            &&& index == -1 ==> switched_off(displays, index).len() == 0
            &&& index == 0 ==> switched_off(displays, index) == join(
                before.take(before.len() - 1),
                ',',
            )
            &&& index != 0 && index != -1 && !before.contains(item) ==> switched_off(
                displays,
                index,
            ) == displays
            &&& index != 0 && index != -1 && 0 <= i < before.len() && before[i] == item && (forall|
                j: int,
            |
                0 <= j < i ==> before[j] != item) ==> switched_off(displays, index) == join(
                before.take(i) + before.skip(i + 1),
                ',',
            )
        }),
{
    let items = split(displays, ',');
    let item = decimal(index as int);
    lemma_join_split(displays, ',');
    lemma_split_no_separator(displays, ',');
    assert(items.drop_last() =~= items.take(items.len() - 1));
    if !items.contains(item) {
        lemma_without_first_absent(items, item);
    }
    if 0 <= i < items.len() && items[i] == item && (forall|j: int| 0 <= j < i ==> items[j] != item) {
        lemma_without_first_at(items, item, i);
        assert(items.remove(i) =~= items.take(i) + items.skip(i + 1));
    }
}

/// The list is stored anew where it changes, and where display 0 is switched; it is not where nothing
/// is to be switched.
pub proof fn lemma_stored(displays: Seq<char>, index: i32)
    ensures
        index == 0 ==> is_stored(displays, index, true) && is_stored(displays, index, false),
        index != 0 ==> (is_stored(displays, index, true) <==> !split(displays, ',').contains(
            decimal(index as int),
        )),
        index == -1 ==> (is_stored(displays, index, false) <==> displays.len() > 0),
        index != 0 && index != -1 ==> (is_stored(displays, index, false) <==> split(
            displays,
            ',',
        ).contains(decimal(index as int))),
        switched(displays, index, true) == switched_on(displays, index),
        switched(displays, index, false) == switched_off(displays, index),
{
}

}
