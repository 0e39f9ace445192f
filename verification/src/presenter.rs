//! The report: the buckets as lines of text, the past with the most recent
//! event first, the future with the soonest first, today as it came.

use crate::classifier::{Bucket, Classified, ClassifiedView};
use crate::event::{item_views, EventItem, EventItemView};
use crate::text::{decimal, decimal_text, magnitude, magnitude_of};
use vstd::prelude::*;
use vstd::string::StringExecFns;

verus! {

/// The distances in days of `items`, in their order.
pub open spec fn days_of(items: Seq<EventItemView>) -> Seq<int> {
    items.map_values(|item: EventItemView| item.days)
}

/// The positions that `order` names, as numbers.
pub open spec fn positions(order: Seq<usize>) -> Seq<int> {
    order.map_values(|p: usize| p as int)
}

/// Whether the item at `a` is shown before the one at `b`: the one nearer
/// to today on its side goes first, and of two that are equally far the
/// one that came first.
pub open spec fn shown_before(days: Seq<int>, a: int, b: int, recent_first: bool) -> bool {
    if days[a] == days[b] {
        a < b
    } else if recent_first {
        days[a] > days[b]
    } else {
        days[a] < days[b]
    }
}

/// Whether `order` lists the first `n` positions of `days`, each of them
/// once, so that every one is shown before all that follow it.
pub open spec fn orders_first(order: Seq<int>, days: Seq<int>, n: int, recent_first: bool) -> bool {
    &&& order.len() == n
    &&& forall|p: int| 0 <= p < n ==> 0 <= #[trigger] order[p] < n
    &&& forall|i: int| 0 <= i < n ==> #[trigger] order.contains(i)
    &&& forall|p: int, q: int|
        0 <= p < q < n ==> shown_before(days, #[trigger] order[p], #[trigger] order[q], recent_first)
}

/// Whether `order` is the sequence in which the items of a bucket are
/// shown: with `recent_first`, by falling distance; without, by rising
/// distance; items of the same distance in the order in which they came.
pub open spec fn is_display_order(order: Seq<int>, days: Seq<int>, recent_first: bool) -> bool {
    orders_first(order, days, days.len() as int, recent_first)
}

/// The sequence in which the items of a bucket are shown. There is one,
/// by [`lemma_display_order_exists`], and no other, by
/// [`lemma_display_order_is_unique`].
pub open spec fn display_order_of(days: Seq<int>, recent_first: bool) -> Seq<int> {
    choose|order: Seq<int>| is_display_order(order, days, recent_first)
}

/// The positions in the order in which they came.
pub open spec fn arrival_order(n: nat) -> Seq<int> {
    Seq::new(n, |p: int| p)
}

/// What is said of an item's distance from today.
pub open spec fn label_text(days: int, bucket: Bucket) -> Seq<char> {
    match bucket {
        Bucket::Past => decimal_text(magnitude_of(days)) + " days ago"@,
        Bucket::Today => "today"@,
        Bucket::Future => "in "@ + decimal_text(magnitude_of(days)) + " days"@,
    }
}

/// The line for one item of a bucket.
pub open spec fn row_text(item: EventItemView, bucket: Bucket) -> Seq<char> {
    "  "@ + item.event.line() + ", "@ + label_text(item.days, bucket)
}

/// The lines for the items of a bucket, in the order `order`.
pub open spec fn rows_in_order(items: Seq<EventItemView>, order: Seq<int>, bucket: Bucket) -> Seq<
    Seq<char>,
> {
    Seq::new(order.len(), |p: int| row_text(items[order[p]], bucket))
}

/// The heading over a bucket.
pub open spec fn heading_text(bucket: Bucket) -> Seq<char> {
    match bucket {
        Bucket::Past => "Past:"@,
        Bucket::Today => "Today:"@,
        Bucket::Future => "Upcoming:"@,
    }
}

/// A bucket as lines: nothing at all where it is empty, else its heading
/// and then its rows.
pub open spec fn section(bucket: Bucket, rows: Seq<Seq<char>>) -> Seq<Seq<char>> {
    if rows.len() == 0 {
        Seq::empty()
    } else {
        seq![heading_text(bucket)] + rows
    }
}

/// The lines for the past: the most recent event first.
pub open spec fn past_section(classified: ClassifiedView) -> Seq<Seq<char>> {
    section(
        Bucket::Past,
        rows_in_order(
            classified.past,
            display_order_of(days_of(classified.past), true),
            Bucket::Past,
        ),
    )
}

/// The lines for today: the events as they came.
pub open spec fn today_section(classified: ClassifiedView) -> Seq<Seq<char>> {
    section(
        Bucket::Today,
        rows_in_order(classified.today, arrival_order(classified.today.len()), Bucket::Today),
    )
}

/// The lines for the future: the soonest event first.
pub open spec fn future_section(classified: ClassifiedView) -> Seq<Seq<char>> {
    section(
        Bucket::Future,
        rows_in_order(
            classified.future,
            display_order_of(days_of(classified.future), false),
            Bucket::Future,
        ),
    )
}

/// The whole report: the past, then today, then the future.
pub open spec fn report(classified: ClassifiedView) -> Seq<Seq<char>> {
    past_section(classified) + today_section(classified) + future_section(classified)
}

/// The number of lines for a bucket of `n` items.
pub open spec fn shown_lines(n: nat) -> nat {
    if n == 0 {
        0
    } else {
        n + 1
    }
}

/// The texts of `lines`, in their order.
pub open spec fn line_texts(lines: Seq<String>) -> Seq<Seq<char>> {
    lines.map_values(|line: String| line@)
}

/// Of two different positions one is shown before the other, never both,
/// and what is shown before an earlier one is shown before the later.
proof fn lemma_shown_before_is_total_order(days: Seq<int>, recent_first: bool)
    ensures
        forall|a: int, b: int|
            a != b ==> (#[trigger] shown_before(days, a, b, recent_first) <==> !shown_before(
                days,
                b,
                a,
                recent_first,
            )),
        forall|a: int| !#[trigger] shown_before(days, a, a, recent_first),
        forall|a: int, b: int, c: int|
            #[trigger] shown_before(days, a, b, recent_first) && #[trigger] shown_before(
                days,
                b,
                c,
                recent_first,
            ) ==> shown_before(days, a, c, recent_first),
{
}

/// Putting position `k` into an order of the first `k` positions, after
/// all that are shown before it and before all that it is shown before,
/// gives an order of the first `k + 1`.
proof fn lemma_insert_keeps_order(
    order: Seq<int>,
    days: Seq<int>,
    k: int,
    at: int,
    recent_first: bool,
)
    requires
        orders_first(order, days, k, recent_first),
        0 <= at <= k,
        forall|q: int| 0 <= q < at ==> shown_before(days, #[trigger] order[q], k, recent_first),
        forall|q: int| at <= q < k ==> shown_before(days, k, #[trigger] order[q], recent_first),
    ensures
        orders_first(order.insert(at, k), days, k + 1, recent_first),
{
    let longer = order.insert(at, k);
    assert forall|i: int| 0 <= i < k + 1 implies #[trigger] longer.contains(i) by {
        if i == k {
            assert(longer[at] == i);
        } else {
            assert(order.contains(i));
            let was = choose|was: int| 0 <= was < order.len() && order[was] == i;
            if was < at {
                assert(longer[was] == i);
            } else {
                assert(longer[was + 1] == i);
            }
        }
    }
}

/// The place for position `k` in an order of the first `k` positions.
proof fn lemma_place_exists(order: Seq<int>, days: Seq<int>, k: int, recent_first: bool, upto: int)
    -> (at: int)
    requires
        orders_first(order, days, k, recent_first),
        0 <= upto <= k,
        forall|q: int| upto <= q < k ==> shown_before(days, k, #[trigger] order[q], recent_first),
    ensures
        0 <= at <= k,
        forall|q: int| 0 <= q < at ==> shown_before(days, #[trigger] order[q], k, recent_first),
        forall|q: int| at <= q < k ==> shown_before(days, k, #[trigger] order[q], recent_first),
    decreases upto,
{
    lemma_shown_before_is_total_order(days, recent_first);
    if upto == 0 {
        0
    } else if shown_before(days, k, order[upto - 1], recent_first) {
        lemma_place_exists(order, days, k, recent_first, upto - 1)
    } else {
        upto
    }
}

proof fn lemma_order_of_first_exists(days: Seq<int>, n: int, recent_first: bool) -> (order: Seq<
    int,
>)
    requires
        0 <= n,
    ensures
        orders_first(order, days, n, recent_first),
    decreases n,
{
    if n == 0 {
        Seq::empty()
    } else {
        let shorter = lemma_order_of_first_exists(days, n - 1, recent_first);
        let at = lemma_place_exists(shorter, days, n - 1, recent_first, n - 1);
        lemma_insert_keeps_order(shorter, days, n - 1, at, recent_first);
        shorter.insert(at, n - 1)
    }
}

/// Every bucket has a sequence in which it is shown.
pub proof fn lemma_display_order_exists(days: Seq<int>, recent_first: bool)
    ensures
        is_display_order(display_order_of(days, recent_first), days, recent_first),
{
    let order = lemma_order_of_first_exists(days, days.len() as int, recent_first);
    assert(is_display_order(order, days, recent_first));
}

proof fn lemma_orders_agree(
    one: Seq<int>,
    other: Seq<int>,
    days: Seq<int>,
    n: int,
    recent_first: bool,
    upto: int,
)
    requires
        orders_first(one, days, n, recent_first),
        orders_first(other, days, n, recent_first),
        0 <= upto <= n,
    ensures
        forall|p: int| 0 <= p < upto ==> one[p] == other[p],
    decreases upto,
{
    if upto > 0 {
        lemma_orders_agree(one, other, days, n, recent_first, upto - 1);
        lemma_shown_before_is_total_order(days, recent_first);
        let last = upto - 1;
        let a = one[last];
        let b = other[last];
        if a != b {
            // Each of the two stands somewhere in the order of the other:
            // not before `last`, where the orders agree, so after it. Then
            // `b` is shown before `a` in one order and after it in the other.
            assert(other.contains(a));
            assert(one.contains(b));
        }
    }
}

/// A bucket is shown in one sequence only: two that both meet
/// [`is_display_order`] are the same.
pub proof fn lemma_display_order_is_unique(
    one: Seq<int>,
    other: Seq<int>,
    days: Seq<int>,
    recent_first: bool,
)
    requires
        is_display_order(one, days, recent_first),
        is_display_order(other, days, recent_first),
    ensures
        one == other,
{
    lemma_orders_agree(one, other, days, days.len() as int, recent_first, days.len() as int);
}

/// In the sequence in which a bucket is shown, the distances never rise
/// where the most recent goes first, and never fall where the soonest
/// goes first.
pub proof fn lemma_display_order_is_sorted(days: Seq<int>, recent_first: bool)
    ensures
        forall|p: int, q: int|
            #![trigger display_order_of(days, recent_first)[p], display_order_of(days, recent_first)[q]]
            0 <= p < q < days.len() ==> if recent_first {
                days[display_order_of(days, recent_first)[p]] >= days[display_order_of(
                    days,
                    recent_first,
                )[q]]
            } else {
                days[display_order_of(days, recent_first)[p]] <= days[display_order_of(
                    days,
                    recent_first,
                )[q]]
            },
{
    lemma_display_order_exists(days, recent_first);
}

/// A report has no line for an empty bucket, neither heading nor row: it
/// is as long as the items and the headings of the buckets that are not
/// empty.
pub proof fn lemma_empty_buckets_are_not_shown(classified: ClassifiedView)
    ensures
        classified.past.len() == 0 ==> past_section(classified) == Seq::<Seq<char>>::empty(),
        classified.today.len() == 0 ==> today_section(classified) == Seq::<Seq<char>>::empty(),
        classified.future.len() == 0 ==> future_section(classified) == Seq::<Seq<char>>::empty(),
        report(classified).len() == shown_lines(classified.past.len()) + shown_lines(
            classified.today.len(),
        ) + shown_lines(classified.future.len()),
{
    lemma_display_order_exists(days_of(classified.past), true);
    lemma_display_order_exists(days_of(classified.future), false);
}

/// Whether the item at `a` is shown before the one at `b`.
fn goes_first(items: &Vec<EventItem>, a: usize, b: usize, recent_first: bool) -> (first: bool)
    requires
        a < items.len(),
        b < items.len(),
    ensures
        first == shown_before(days_of(item_views(items@)), a as int, b as int, recent_first),
{
    let near = items[a].days;
    let far = items[b].days;
    if near == far {
        a < b
    } else if recent_first {
        near > far
    } else {
        near < far
    }
}

/// The sequence in which the items of a bucket are shown, as positions
/// in `items`. The items stay where they are.
pub fn display_order(items: &Vec<EventItem>, recent_first: bool) -> (order: Vec<usize>)
    ensures
        order@.len() == items@.len(),
        forall|p: int| 0 <= p < order@.len() ==> #[trigger] order@[p] < items@.len(),
        is_display_order(positions(order@), days_of(item_views(items@)), recent_first),
        positions(order@) == display_order_of(days_of(item_views(items@)), recent_first),
{
    let ghost days = days_of(item_views(items@));
    let mut order: Vec<usize> = Vec::new();
    let mut k: usize = 0;
    while k < items.len()
        invariant
            k <= items.len(),
            days == days_of(item_views(items@)),
            order@.len() == k,
            forall|q: int| 0 <= q < k ==> #[trigger] order@[q] < k,
            orders_first(positions(order@), days, k as int, recent_first),
        decreases items.len() - k,
    {
        let ghost shorter = positions(order@);
        let mut at: usize = k;
        while at > 0 && goes_first(items, k, order[at - 1], recent_first)
            invariant
                at <= k < items.len(),
                order@.len() == k,
                forall|q: int| 0 <= q < k ==> #[trigger] order@[q] < k,
                days == days_of(item_views(items@)),
                shorter == positions(order@),
                orders_first(shorter, days, k as int, recent_first),
                forall|q: int|
                    at <= q < k ==> shown_before(
                        days,
                        k as int,
                        #[trigger] shorter[q],
                        recent_first,
                    ),
            decreases at,
        {
            at -= 1;
        }
        proof {
            lemma_shown_before_is_total_order(days, recent_first);
            assert forall|q: int| 0 <= q < at implies shown_before(
                days,
                #[trigger] shorter[q],
                k as int,
                recent_first,
            ) by {
                if q < at - 1 {
                    assert(shown_before(days, shorter[q], shorter[at - 1], recent_first));
                }
            }
            lemma_insert_keeps_order(shorter, days, k as int, at as int, recent_first);
        }
        order.insert(at, k);
        assert(positions(order@) =~= shorter.insert(at as int, k as int));
        k += 1;
    }
    proof {
        lemma_display_order_exists(days, recent_first);
        lemma_display_order_is_unique(
            positions(order@),
            display_order_of(days, recent_first),
            days,
            recent_first,
        );
    }
    order
}

/// What is said of a distance of `days` days in `bucket`.
pub fn label(days: i64, bucket: Bucket) -> (s: String)
    ensures
        s@ == label_text(days as int, bucket),
{
    match bucket {
        Bucket::Past => {
            let mut s = decimal(magnitude(days));
            s.append(" days ago");
            s
        },
        Bucket::Today => String::from_str("today"),
        Bucket::Future => {
            let mut s = String::from_str("in ");
            s.append(decimal(magnitude(days)).as_str());
            s.append(" days");
            s
        },
    }
}

/// The line for one item of `bucket`.
pub fn row(item: &EventItem, bucket: Bucket) -> (s: String)
    ensures
        s@ == row_text(item@, bucket),
{
    let mut s = String::from_str("  ");
    s.append(item.event.to_line().as_str());
    s.append(", ");
    s.append(label(item.days, bucket).as_str());
    s
}

/// The heading over `bucket`.
pub fn heading(bucket: Bucket) -> (s: String)
    ensures
        s@ == heading_text(bucket),
{
    match bucket {
        Bucket::Past => String::from_str("Past:"),
        Bucket::Today => String::from_str("Today:"),
        Bucket::Future => String::from_str("Upcoming:"),
    }
}

/// The positions 0 to `n - 1`, rising.
fn arrival(n: usize) -> (order: Vec<usize>)
    ensures
        positions(order@) == arrival_order(n as nat),
        forall|p: int| 0 <= p < order@.len() ==> #[trigger] order@[p] < n,
{
    let mut order: Vec<usize> = Vec::new();
    let mut p: usize = 0;
    while p < n
        invariant
            p <= n,
            order@.len() == p,
            forall|q: int| 0 <= q < p ==> order@[q] == q,
        decreases n - p,
    {
        order.push(p);
        p += 1;
    }
    order
}

/// The lines for the items of `bucket`, shown in the order `order`:
/// nothing for no items, else the heading and one row for each.
fn section_lines(items: &Vec<EventItem>, order: &Vec<usize>, bucket: Bucket) -> (lines: Vec<
    String,
>)
    requires
        forall|p: int| 0 <= p < order@.len() ==> #[trigger] order@[p] < items@.len(),
    ensures
        line_texts(lines@) == section(
            bucket,
            rows_in_order(item_views(items@), positions(order@), bucket),
        ),
{
    let ghost rows = rows_in_order(item_views(items@), positions(order@), bucket);
    let mut lines: Vec<String> = Vec::new();
    if order.len() == 0 {
        return lines;
    }
    lines.push(heading(bucket));
    let mut p: usize = 0;
    while p < order.len()
        invariant
            p <= order.len(),
            forall|q: int| 0 <= q < order@.len() ==> #[trigger] order@[q] < items@.len(),
            rows == rows_in_order(item_views(items@), positions(order@), bucket),
            line_texts(lines@) == seq![heading_text(bucket)] + rows.take(p as int),
        decreases order.len() - p,
    {
        let ghost before = line_texts(lines@);
        let line = row(&items[order[p]], bucket);
        lines.push(line);
        assert(line_texts(lines@) =~= before.push(rows[p as int]));
        p += 1;
    }
    lines
}

/// The report on the three buckets, as lines: the past with the most
/// recent event first, then today as it came, then the future with the
/// soonest event first. A bucket without events has no line at all. The
/// buckets themselves are only read.
pub fn present(classified: &Classified) -> (lines: Vec<String>)
    ensures
        line_texts(lines@) == report(classified@),
{
    let past_order = display_order(&classified.past, true);
    let today_order = arrival(classified.today.len());
    let future_order = display_order(&classified.future, false);
    let mut lines = section_lines(&classified.past, &past_order, Bucket::Past);
    let mut today_lines = section_lines(&classified.today, &today_order, Bucket::Today);
    let mut future_lines = section_lines(&classified.future, &future_order, Bucket::Future);
    lines.append(&mut today_lines);
    lines.append(&mut future_lines);
    lines
}

} // verus!
