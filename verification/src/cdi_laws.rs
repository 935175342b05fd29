//! What holds of the devices that a policy gets a sandbox.

use vstd::prelude::*;
use vstd::seq_lib::*;

use crate::cdi::{unserved_reason, CdiPolicyView};
use crate::pattern::{some_matches, wildcard_matches};
use crate::text_laws::{
    distinct_keeps_each_member_once, distinct_keeps_the_order_of_first_occurrences,
};

verus! {

/// Whether the allow list lets `device` through: there is none, or one of its patterns, wherever it
/// stands, matches the device.
pub open spec fn is_allowed(policy: CdiPolicyView, device: Seq<char>) -> bool {
    policy.allowed matches Some(patterns) ==> exists|i: int|
        0 <= i < patterns.len() && wildcard_matches(#[trigger] patterns[i], device)
}

/// Whether one of the patterns of the deny list matches `device`.
pub open spec fn is_denied(policy: CdiPolicyView, device: Seq<char>) -> bool {
    exists|i: int|
        0 <= i < policy.denied.len() && wildcard_matches(#[trigger] policy.denied[i], device)
}

/// Whether `selector` gets a sandbox `device`.
pub open spec fn gets(policy: CdiPolicyView, selector: Seq<char>, device: Seq<char>) -> bool {
    wildcard_matches(selector, device) && is_allowed(policy, device) && !is_denied(policy, device)
}

/// Whether `selector` gets a sandbox one of the `available` devices.
pub open spec fn gets_something(
    policy: CdiPolicyView,
    selector: Seq<char>,
    available: Seq<Seq<char>>,
) -> bool {
    exists|i: int| 0 <= i < available.len() && gets(policy, selector, #[trigger] available[i])
}

/// Whether one of `selectors` matches `device`.
pub open spec fn is_asked_for(selectors: Seq<Seq<char>>, device: Seq<char>) -> bool {
    exists|i: int| 0 <= i < selectors.len() && wildcard_matches(#[trigger] selectors[i], device)
}

proof fn grants_are_exactly(
    policy: CdiPolicyView,
    selectors: Seq<Seq<char>>,
    available: Seq<Seq<char>>,
    device: Seq<char>,
)
    ensures
        policy.grants_of(selectors, available).contains(device) <==> {
            &&& available.contains(device)
            &&& is_asked_for(selectors, device)
            &&& is_allowed(policy, device)
            &&& !is_denied(policy, device)
        },
    decreases selectors.len(),
{
    if selectors.len() > 0 {
        let before = selectors.drop_last();
        let last = selectors.last();
        grants_are_exactly(policy, before, available, device);
        let granting = |d: Seq<char>| policy.grants(last, d);
        let first_part = policy.grants_of(before, available);
        let second_part = available.filter(granting);
        lemma_seq_concat_contains_all_elements(first_part, second_part, device);
        assert(selectors[selectors.len() - 1] == last);
        if second_part.contains(device) {
            available.lemma_filter_contains_rev(granting, device);
            let k = second_part.index_of(device);
            assert(granting(second_part[k]));
        }
        if is_asked_for(selectors, device) {
            let i = choose|i: int|
                0 <= i < selectors.len() && wildcard_matches(#[trigger] selectors[i], device);
            if i < before.len() {
                assert(before[i] == selectors[i]);
            }
        }
        if is_asked_for(before, device) {
            let i = choose|i: int|
                0 <= i < before.len() && wildcard_matches(#[trigger] before[i], device);
            assert(before[i] == selectors[i]);
        }
        if available.contains(device) && granting(device) {
            let k = available.index_of(device);
            assert(granting(available[k]));
            assert(second_part.contains(available[k]));
        }
    }
}

proof fn withholdings_are_exactly(
    policy: CdiPolicyView,
    selectors: Seq<Seq<char>>,
    available: Seq<Seq<char>>,
    device: Seq<char>,
)
    ensures
        policy.withholdings_of(selectors, available).contains(device) <==> {
            &&& available.contains(device)
            &&& is_asked_for(selectors, device)
            &&& is_allowed(policy, device)
            &&& is_denied(policy, device)
        },
    decreases selectors.len(),
{
    if selectors.len() > 0 {
        let before = selectors.drop_last();
        let last = selectors.last();
        withholdings_are_exactly(policy, before, available, device);
        let withholding = |d: Seq<char>| policy.withholds(last, d);
        let first_part = policy.withholdings_of(before, available);
        let second_part = available.filter(withholding);
        lemma_seq_concat_contains_all_elements(first_part, second_part, device);
        assert(selectors[selectors.len() - 1] == last);
        if second_part.contains(device) {
            available.lemma_filter_contains_rev(withholding, device);
            let k = second_part.index_of(device);
            assert(withholding(second_part[k]));
        }
        if is_asked_for(selectors, device) {
            let i = choose|i: int|
                0 <= i < selectors.len() && wildcard_matches(#[trigger] selectors[i], device);
            if i < before.len() {
                assert(before[i] == selectors[i]);
            }
        }
        if is_asked_for(before, device) {
            let i = choose|i: int|
                0 <= i < before.len() && wildcard_matches(#[trigger] before[i], device);
            assert(before[i] == selectors[i]);
        }
        if available.contains(device) && withholding(device) {
            let k = available.index_of(device);
            assert(withholding(available[k]));
            assert(second_part.contains(available[k]));
        }
    }
}

/// A sandbox gets exactly the available devices that it asks for, that the allow list lets through
/// and that the deny list does not name, and gets each of them once.
pub proof fn sandbox_gets_exactly_the_granted_devices(
    policy: CdiPolicyView,
    available: Seq<Seq<char>>,
)
    ensures
        policy.granted(available).no_duplicates(),
        forall|device: Seq<char>| #[trigger] policy.granted(available).contains(device) <==> {
            &&& available.contains(device)
            &&& is_asked_for(policy.requested, device)
            &&& is_allowed(policy, device)
            &&& !is_denied(policy, device)
        },
{
    distinct_keeps_each_member_once(policy.grants_of(policy.requested, available));
    assert forall|device: Seq<char>| #[trigger] policy.granted(available).contains(device) <==> {
        &&& available.contains(device)
        &&& is_asked_for(policy.requested, device)
        &&& is_allowed(policy, device)
        &&& !is_denied(policy, device)
    } by {
        grants_are_exactly(policy, policy.requested, available, device);
    }
}

/// There is one warning about each available device that is asked for and allowed but denied, and
/// no other warning.
pub proof fn denied_devices_are_warned_about(policy: CdiPolicyView, available: Seq<Seq<char>>)
    ensures
        policy.withheld(available).no_duplicates(),
        forall|device: Seq<char>| #[trigger] policy.withheld(available).contains(device) <==> {
            &&& available.contains(device)
            &&& is_asked_for(policy.requested, device)
            &&& is_allowed(policy, device)
            &&& is_denied(policy, device)
        },
{
    distinct_keeps_each_member_once(policy.withholdings_of(policy.requested, available));
    assert forall|device: Seq<char>| #[trigger] policy.withheld(available).contains(device) <==> {
        &&& available.contains(device)
        &&& is_asked_for(policy.requested, device)
        &&& is_allowed(policy, device)
        &&& is_denied(policy, device)
    } by {
        withholdings_are_exactly(policy, policy.requested, available, device);
    }
}

/// The deny list wins: no device that it names reaches the sandbox, whatever is asked for and
/// allowed.
pub proof fn deny_list_wins(policy: CdiPolicyView, available: Seq<Seq<char>>, device: Seq<char>)
    requires
        is_denied(policy, device),
    ensures
        policy.outcome(available) matches Ok(filtered) ==> !filtered.devices.contains(device),
{
    sandbox_gets_exactly_the_granted_devices(policy, available);
}

/// No device outside the allow list reaches the sandbox.
pub proof fn allow_list_binds(policy: CdiPolicyView, available: Seq<Seq<char>>, device: Seq<char>)
    requires
        !is_allowed(policy, device),
    ensures
        policy.outcome(available) matches Ok(filtered) ==> !filtered.devices.contains(device),
{
    sandbox_gets_exactly_the_granted_devices(policy, available);
}

/// Whether the selector at position `k` is the first that gets the sandbox no device.
pub open spec fn is_first_unserved(
    policy: CdiPolicyView,
    selectors: Seq<Seq<char>>,
    available: Seq<Seq<char>>,
    k: int,
) -> bool {
    &&& 0 <= k < selectors.len()
    &&& !gets_something(policy, selectors[k], available)
    &&& forall|i: int| 0 <= i < k ==> gets_something(policy, #[trigger] selectors[i], available)
}

proof fn unserved_is_found(
    policy: CdiPolicyView,
    selectors: Seq<Seq<char>>,
    available: Seq<Seq<char>>,
)
    ensures
        match policy.first_unserved(selectors, available) {
            Some(selector) => exists|k: int| #[trigger]
                is_first_unserved(policy, selectors, available, k) && selectors[k] == selector,
            None => forall|i: int|
                0 <= i < selectors.len() ==> gets_something(policy, #[trigger] selectors[i], available),
        },
    decreases selectors.len(),
{
    if selectors.len() > 0 {
        let rest = selectors.drop_first();
        unserved_is_found(policy, rest, available);
        if gets_something(policy, selectors[0], available) {
            match policy.first_unserved(rest, available) {
                Some(selector) => {
                    let k = choose|k: int| #[trigger]
                        is_first_unserved(policy, rest, available, k) && rest[k] == selector;
                    assert(selectors[k + 1] == rest[k]);
                    assert forall|i: int| 0 <= i < k + 1 implies gets_something(policy, #[trigger] selectors[i],
                        available,
                    ) by {
                        if i > 0 {
                            assert(rest[i - 1] == selectors[i]);
                        }
                    }
                    assert(is_first_unserved(policy, selectors, available, k + 1));
                },
                None => {
                    assert forall|i: int| 0 <= i < selectors.len() implies gets_something(policy, #[trigger] selectors[i],
                        available,
                    ) by {
                        if i > 0 {
                            assert(rest[i - 1] == selectors[i]);
                        }
                    }
                },
            }
        } else {
            assert(is_first_unserved(policy, selectors, available, 0));
        }
    }
}

/// There is a sandbox exactly where every selector gets it a device; where there is none, the
/// reason names the first selector that gets it nothing.
pub proof fn every_selector_has_to_be_served(policy: CdiPolicyView, available: Seq<Seq<char>>)
    ensures
        policy.outcome(available) is Ok <==> forall|i: int|
            0 <= i < policy.requested.len() ==> gets_something(policy, #[trigger] policy.requested[i],
                available,
            ),
        policy.outcome(available) matches Err(reason) ==> exists|k: int| #[trigger]
            is_first_unserved(policy, policy.requested, available, k) && reason == unserved_reason(
                policy.requested[k],
            ),
{
    unserved_is_found(policy, policy.requested, available);
}

/// More deny patterns only take devices away: what the longer list lets through, the shorter one
/// did too, and what keeps a launch from happening still keeps it.
pub proof fn denying_more_takes_devices_away(
    policy: CdiPolicyView,
    more: Seq<Seq<char>>,
    available: Seq<Seq<char>>,
)
    ensures
        ({
            let stricter = CdiPolicyView { denied: policy.denied + more, ..policy };
            &&& forall|device: Seq<char>| #[trigger]
                stricter.granted(available).contains(device) ==> policy.granted(available).contains(
                    device,
                )
            &&& stricter.outcome(available) is Ok ==> policy.outcome(available) is Ok
        }),
{
    let stricter = CdiPolicyView { denied: policy.denied + more, ..policy };
    assert forall|device: Seq<char>| is_denied(policy, device) implies #[trigger] is_denied(stricter, device,
    ) by {
        let k = choose|k: int|
            0 <= k < policy.denied.len() && wildcard_matches(#[trigger] policy.denied[k], device);
        assert(stricter.denied[k] == policy.denied[k]);
    }
    sandbox_gets_exactly_the_granted_devices(policy, available);
    sandbox_gets_exactly_the_granted_devices(stricter, available);
    every_selector_has_to_be_served(policy, available);
    every_selector_has_to_be_served(stricter, available);
    if stricter.outcome(available) is Ok {
        assert forall|i: int| 0 <= i < policy.requested.len() implies gets_something(policy, #[trigger] policy.requested[i],
            available,
        ) by {
            let selector = stricter.requested[i];
            assert(gets_something(stricter, selector, available));
            let j = choose|j: int|
                0 <= j < available.len() && gets(stricter, selector, #[trigger] available[j]);
            assert(!is_denied(stricter, available[j]));
            assert(gets(policy, selector, available[j]));
        }
    }
}

proof fn filtered_items_keep_their_order<A>(
    list: Seq<A>,
    keep: spec_fn(A) -> bool,
    position: int,
) -> (place: int)
    requires
        0 <= position < list.filter(keep).len(),
    ensures
        0 <= place < list.len(),
        list[place] == list.filter(keep)[position],
        forall|b: int|
            0 <= b <= place && keep(#[trigger] list[b]) ==> list.filter(keep).take(
                position + 1,
            ).contains(list[b]),
    decreases list.len(),
{
    let before = list.drop_last();
    let kept = before.filter(keep);
    if list.len() == 0 {
        0
    } else if position < kept.len() {
        let place = filtered_items_keep_their_order(before, keep, position);
        reveal(Seq::filter);
        assert(list.filter(keep).take(position + 1) == kept.take(position + 1));
        assert forall|b: int| 0 <= b <= place && keep(#[trigger] list[b]) implies list.filter(
            keep,
        ).take(position + 1).contains(list[b]) by {
            assert(before[b] == list[b]);
        }
        place
    } else {
        reveal(Seq::filter);
        assert(list.filter(keep).take(position + 1) == list.filter(keep));
        list.len() - 1
    }
}

/// Where in `selectors` and `available` the device at `position` among the grants comes from: no
/// earlier pair of a selector and a place grants a device that does not stand up to `position`.
proof fn grants_keep_the_order_of_selectors(
    policy: CdiPolicyView,
    selectors: Seq<Seq<char>>,
    available: Seq<Seq<char>>,
    position: int,
) -> (origin: (int, int))
    requires
        0 <= position < policy.grants_of(selectors, available).len(),
    ensures
        ({
            let (k, place) = origin;
            let so_far = policy.grants_of(selectors, available).take(position + 1);
            &&& 0 <= k < selectors.len()
            &&& 0 <= place < available.len()
            &&& available[place] == policy.grants_of(selectors, available)[position]
            &&& gets(policy, selectors[k], available[place])
            &&& forall|m: int, b: int|
                0 <= m < k && 0 <= b < available.len() && #[trigger] gets(policy, selectors[m],
                    available[b],
                ) ==> so_far.contains(available[b])
            &&& forall|b: int|
                0 <= b <= place && gets(policy, selectors[k], #[trigger] available[b])
                    ==> so_far.contains(available[b])
        }),
    decreases selectors.len(),
{
    if selectors.len() == 0 {
        (0, 0)
    } else {
        let before = selectors.drop_last();
        let last = selectors.last();
        let granting = |d: Seq<char>| policy.grants(last, d);
        let first_part = policy.grants_of(before, available);
        let second_part = available.filter(granting);
        let all = policy.grants_of(selectors, available);
        assert(all == first_part + second_part);
        let so_far = all.take(position + 1);
        if position < first_part.len() {
            let (k, place) = grants_keep_the_order_of_selectors(
                policy,
                before,
                available,
                position,
            );
            assert(so_far == first_part.take(position + 1));
            assert(selectors[k] == before[k]);
            assert forall|m: int, b: int|
                0 <= m < k && 0 <= b < available.len() && #[trigger] gets(policy, selectors[m],
                    available[b],
                ) implies so_far.contains(available[b]) by {
                assert(before[m] == selectors[m]);
                assert(gets(policy, before[m], available[b]));
            }
            (k, place)
        } else {
            let rest = position - first_part.len();
            let place = filtered_items_keep_their_order(available, granting, rest);
            assert(all[position] == second_part[rest]);
            assert(granting(second_part[rest]));
            assert forall|m: int, b: int|
                0 <= m < selectors.len() - 1 && 0 <= b < available.len()
                    && #[trigger] gets(policy, selectors[m],
                    available[b],
                ) implies so_far.contains(available[b]) by {
                grants_are_exactly(policy, before, available, available[b]);
                assert(before[m] == selectors[m]);
                assert(available.contains(available[b]));
                let q = first_part.index_of(available[b]);
                assert(so_far[q] == first_part[q]);
            }
            assert forall|b: int|
                0 <= b <= place && gets(policy, last,
                    #[trigger] available[b],
                ) implies so_far.contains(available[b]) by {
                assert(granting(available[b]));
                let kept = second_part.take(rest + 1);
                let q = kept.index_of(available[b]);
                assert(so_far[first_part.len() + q] == kept[q]);
            }
            (selectors.len() - 1, place)
        }
    }
}

/// Whether `a` is granted before `b`: the first selector that grants one of them grants `a`, and
/// where it grants both, `a` stands before `b` among the available devices.
pub open spec fn is_granted_before(
    policy: CdiPolicyView,
    available: Seq<Seq<char>>,
    a: Seq<char>,
    b: Seq<char>,
) -> bool {
    exists|k: int|
        #![trigger policy.requested[k]]
        {
            &&& 0 <= k < policy.requested.len()
            &&& gets(policy, policy.requested[k], a)
            &&& forall|m: int|
                0 <= m < k ==> !gets(policy, #[trigger] policy.requested[m], b)
            &&& gets(policy, policy.requested[k], b) ==> exists|place: int|
                0 <= place < available.len() && #[trigger] available[place] == a && forall|j: int|
                    0 <= j <= place ==> #[trigger] available[j] != b
        }
}

/// The devices of a sandbox stand in the order of the selectors that get them, and those of one
/// selector in the order in which they are available.
pub proof fn devices_come_in_the_order_of_the_selectors(
    policy: CdiPolicyView,
    available: Seq<Seq<char>>,
    i: int,
    j: int,
)
    requires
        0 <= i < j < policy.granted(available).len(),
    ensures
        is_granted_before(
            policy,
            available,
            policy.granted(available)[i],
            policy.granted(available)[j],
        ),
{
    let list = policy.grants_of(policy.requested, available);
    let a = policy.granted(available)[i];
    let b = policy.granted(available)[j];
    let position = distinct_keeps_the_order_of_first_occurrences(list, i, j);
    let (k, place) = grants_keep_the_order_of_selectors(
        policy,
        policy.requested,
        available,
        position,
    );
    let so_far = list.take(position + 1);
    assert(!so_far.contains(b));
    sandbox_gets_exactly_the_granted_devices(policy, available);
    assert(policy.granted(available).contains(b));
    let at = available.index_of(b);
    assert(available[at] == b);
    assert forall|m: int| 0 <= m < k implies !gets(policy, #[trigger] policy.requested[m], b) by {
        if gets(policy, policy.requested[m], b) {
            assert(gets(policy, policy.requested[m], available[at]));
        }
    }
    assert(gets(policy, policy.requested[k], a));
    if gets(policy, policy.requested[k], b) {
        assert forall|m: int| 0 <= m <= place implies #[trigger] available[m] != b by {
            if available[m] == b {
                assert(so_far.contains(available[m]));
            }
        }
        assert(available[place] == a);
    }
}

/// Whether `selector` would get a sandbox `device`, were it not for the deny list.
pub open spec fn would_get(policy: CdiPolicyView, selector: Seq<char>, device: Seq<char>) -> bool {
    wildcard_matches(selector, device) && is_allowed(policy, device) && is_denied(policy, device)
}

/// Where in `selectors` and `available` the device at `position` among the withheld ones comes from: no
/// earlier pair of a selector and a place would get a device that does not stand up to `position`.
proof fn withholdings_keep_the_order_of_selectors(
    policy: CdiPolicyView,
    selectors: Seq<Seq<char>>,
    available: Seq<Seq<char>>,
    position: int,
) -> (origin: (int, int))
    requires
        0 <= position < policy.withholdings_of(selectors, available).len(),
    ensures
        ({
            let (k, place) = origin;
            let so_far = policy.withholdings_of(selectors, available).take(position + 1);
            &&& 0 <= k < selectors.len()
            &&& 0 <= place < available.len()
            &&& available[place] == policy.withholdings_of(selectors, available)[position]
            &&& would_get(policy, selectors[k], available[place])
            &&& forall|m: int, b: int|
                0 <= m < k && 0 <= b < available.len() && #[trigger] would_get(policy, selectors[m],
                    available[b],
                ) ==> so_far.contains(available[b])
            &&& forall|b: int|
                0 <= b <= place && would_get(policy, selectors[k], #[trigger] available[b])
                    ==> so_far.contains(available[b])
        }),
    decreases selectors.len(),
{
    if selectors.len() == 0 {
        (0, 0)
    } else {
        let before = selectors.drop_last();
        let last = selectors.last();
        let withholding = |d: Seq<char>| policy.withholds(last, d);
        let first_part = policy.withholdings_of(before, available);
        let second_part = available.filter(withholding);
        let all = policy.withholdings_of(selectors, available);
        assert(all == first_part + second_part);
        let so_far = all.take(position + 1);
        if position < first_part.len() {
            let (k, place) = withholdings_keep_the_order_of_selectors(
                policy,
                before,
                available,
                position,
            );
            assert(so_far == first_part.take(position + 1));
            assert(selectors[k] == before[k]);
            assert forall|m: int, b: int|
                0 <= m < k && 0 <= b < available.len() && #[trigger] would_get(policy, selectors[m],
                    available[b],
                ) implies so_far.contains(available[b]) by {
                assert(before[m] == selectors[m]);
                assert(would_get(policy, before[m], available[b]));
            }
            (k, place)
        } else {
            let rest = position - first_part.len();
            let place = filtered_items_keep_their_order(available, withholding, rest);
            assert(all[position] == second_part[rest]);
            assert(withholding(second_part[rest]));
            assert forall|m: int, b: int|
                0 <= m < selectors.len() - 1 && 0 <= b < available.len()
                    && #[trigger] would_get(policy, selectors[m],
                    available[b],
                ) implies so_far.contains(available[b]) by {
                withholdings_are_exactly(policy, before, available, available[b]);
                assert(before[m] == selectors[m]);
                assert(available.contains(available[b]));
                let q = first_part.index_of(available[b]);
                assert(so_far[q] == first_part[q]);
            }
            assert forall|b: int|
                0 <= b <= place && would_get(policy, last,
                    #[trigger] available[b],
                ) implies so_far.contains(available[b]) by {
                assert(withholding(available[b]));
                let kept = second_part.take(rest + 1);
                let q = kept.index_of(available[b]);
                assert(so_far[first_part.len() + q] == kept[q]);
            }
            (selectors.len() - 1, place)
        }
    }
}

/// Whether `a` is withheld before `b`, in the sense in which devices are granted.
pub open spec fn is_withheld_before(
    policy: CdiPolicyView,
    available: Seq<Seq<char>>,
    a: Seq<char>,
    b: Seq<char>,
) -> bool {
    exists|k: int|
        #![trigger policy.requested[k]]
        {
            &&& 0 <= k < policy.requested.len()
            &&& would_get(policy, policy.requested[k], a)
            &&& forall|m: int|
                0 <= m < k ==> !would_get(policy, #[trigger] policy.requested[m], b)
            &&& would_get(policy, policy.requested[k], b) ==> exists|place: int|
                0 <= place < available.len() && #[trigger] available[place] == a && forall|j: int|
                    0 <= j <= place ==> #[trigger] available[j] != b
        }
}

proof fn withheld_devices_come_in_the_order_of_the_selectors(
    policy: CdiPolicyView,
    available: Seq<Seq<char>>,
    i: int,
    j: int,
)
    requires
        0 <= i < j < policy.withheld(available).len(),
    ensures
        is_withheld_before(
            policy,
            available,
            policy.withheld(available)[i],
            policy.withheld(available)[j],
        ),
{
    let list = policy.withholdings_of(policy.requested, available);
    let a = policy.withheld(available)[i];
    let b = policy.withheld(available)[j];
    let position = distinct_keeps_the_order_of_first_occurrences(list, i, j);
    let (k, place) = withholdings_keep_the_order_of_selectors(
        policy,
        policy.requested,
        available,
        position,
    );
    let so_far = list.take(position + 1);
    assert(!so_far.contains(b));
    denied_devices_are_warned_about(policy, available);
    assert(policy.withheld(available).contains(b));
    let at = available.index_of(b);
    assert(available[at] == b);
    assert forall|m: int| 0 <= m < k implies !would_get(
        policy,
        #[trigger] policy.requested[m],
        b,
    ) by {
        if would_get(policy, policy.requested[m], b) {
            assert(would_get(policy, policy.requested[m], available[at]));
        }
    }
    assert(would_get(policy, policy.requested[k], a));
    if would_get(policy, policy.requested[k], b) {
        assert forall|m: int| 0 <= m <= place implies #[trigger] available[m] != b by {
            if available[m] == b {
                assert(so_far.contains(available[m]));
            }
        }
        assert(available[place] == a);
    }
}

/// What a policy makes of the available devices, in terms of its lists. A launch goes on exactly
/// where every selector matches an available device that is allowed and not denied; otherwise the
/// reason names the first that does not. The sandbox then gets exactly the available devices that a
/// selector and, where there is an allow list, one of its patterns match and no deny pattern does:
/// each once, in the order of the selectors and then of their places. It is warned, in the same
/// order and once each, of exactly those that only the deny list keeps from it.
pub proof fn policy_decides_by_its_lists(
    policy: CdiPolicyView,
    available: Seq<Seq<char>>,
) -> (withheld: Seq<Seq<char>>)
    ensures
        policy.outcome(available) is Ok <==> forall|k: int|
            0 <= k < policy.requested.len() ==> gets_something(
                policy,
                #[trigger] policy.requested[k],
                available,
            ),
        policy.outcome(available) matches Err(reason) ==> exists|k: int|
            #![trigger policy.requested[k]]
            {
                &&& 0 <= k < policy.requested.len()
                &&& !gets_something(policy, policy.requested[k], available)
                &&& forall|i: int|
                    0 <= i < k ==> gets_something(policy, #[trigger] policy.requested[i], available)
                &&& reason == "CDI selector `"@ + policy.requested[k]
                    + "` did not match any devices allowed by policy"@
            },
        policy.outcome(available) matches Ok(filtered) ==> {
            &&& filtered.devices.no_duplicates()
            &&& forall|device: Seq<char>| #[trigger]
                filtered.devices.contains(device) <==> {
                    &&& available.contains(device)
                    &&& exists|k: int|
                        0 <= k < policy.requested.len() && wildcard_matches(
                            #[trigger] policy.requested[k],
                            device,
                        )
                    &&& is_allowed(policy, device)
                    &&& !is_denied(policy, device)
                }
            &&& forall|i: int, j: int|
                #![trigger filtered.devices[i], filtered.devices[j]]
                0 <= i < j < filtered.devices.len() ==> is_granted_before(
                    policy,
                    available,
                    filtered.devices[i],
                    filtered.devices[j],
                )
            &&& filtered.warnings.len() == withheld.len()
            &&& forall|i: int|
                0 <= i < withheld.len() ==> #[trigger] filtered.warnings[i] == "CDI device "@
                    + withheld[i]
                    + " is denied by managed policy and will not be added to the sandbox"@
        },
        withheld.no_duplicates(),
        forall|device: Seq<char>| #[trigger]
            withheld.contains(device) <==> {
                &&& available.contains(device)
                &&& exists|k: int|
                    0 <= k < policy.requested.len() && wildcard_matches(
                        #[trigger] policy.requested[k],
                        device,
                    )
                &&& is_allowed(policy, device)
                &&& is_denied(policy, device)
            },
        forall|i: int, j: int|
            #![trigger withheld[i], withheld[j]]
            0 <= i < j < withheld.len() ==> is_withheld_before(
                policy,
                available,
                withheld[i],
                withheld[j],
            ),
{
    let withheld = policy.withheld(available);
    every_selector_has_to_be_served(policy, available);
    sandbox_gets_exactly_the_granted_devices(policy, available);
    denied_devices_are_warned_about(policy, available);
    assert forall|i: int, j: int|
        #![trigger withheld[i], withheld[j]]
        0 <= i < j < withheld.len() implies is_withheld_before(
        policy,
        available,
        withheld[i],
        withheld[j],
    ) by {
        withheld_devices_come_in_the_order_of_the_selectors(policy, available, i, j);
    }
    match policy.outcome(available) {
        Ok(filtered) => {
            assert forall|i: int, j: int|
                #![trigger filtered.devices[i], filtered.devices[j]]
                0 <= i < j < filtered.devices.len() implies is_granted_before(
                policy,
                available,
                filtered.devices[i],
                filtered.devices[j],
            ) by {
                devices_come_in_the_order_of_the_selectors(policy, available, i, j);
            }
        },
        Err(reason) => {
            let k = choose|k: int| #[trigger]
                is_first_unserved(policy, policy.requested, available, k) && reason
                    == unserved_reason(policy.requested[k]);
            assert(!gets_something(policy, policy.requested[k], available));
        },
    }
    withheld
}

/// Whether two policies ask for the same and let the same through.
spec fn decide_alike(first: CdiPolicyView, second: CdiPolicyView) -> bool {
    &&& first.requested == second.requested
    &&& forall|device: Seq<char>| #[trigger] first.allows(device) == second.allows(device)
    &&& forall|device: Seq<char>| #[trigger] first.denies(device) == second.denies(device)
}

proof fn policies_that_decide_alike_grant_alike(
    first: CdiPolicyView,
    second: CdiPolicyView,
    selectors: Seq<Seq<char>>,
    available: Seq<Seq<char>>,
)
    requires
        decide_alike(first, second),
    ensures
        first.grants_of(selectors, available) == second.grants_of(selectors, available),
        first.withholdings_of(selectors, available) == second.withholdings_of(
            selectors,
            available,
        ),
        first.first_unserved(selectors, available) == second.first_unserved(selectors, available),
    decreases selectors.len(),
{
    if selectors.len() > 0 {
        let last = selectors.last();
        policies_that_decide_alike_grant_alike(first, second, selectors.drop_last(), available);
        policies_that_decide_alike_grant_alike(first, second, selectors.drop_first(), available);
        let granting = |device: Seq<char>| first.grants(last, device);
        let granting_too = |device: Seq<char>| second.grants(last, device);
        assert forall|device: Seq<char>| #[trigger] granting(device) == granting_too(device) by {
            assert(first.allows(device) == second.allows(device));
            assert(first.denies(device) == second.denies(device));
        }
        assert(granting =~= granting_too);
        let withholding = |device: Seq<char>| first.withholds(last, device);
        let withholding_too = |device: Seq<char>| second.withholds(last, device);
        assert forall|device: Seq<char>| #[trigger] withholding(device) == withholding_too(
            device,
        ) by {
            assert(first.allows(device) == second.allows(device));
            assert(first.denies(device) == second.denies(device));
        }
        assert(withholding =~= withholding_too);
        let front = selectors[0];
        assert forall|device: Seq<char>| #[trigger] first.grants(front, device) == second.grants(
            front,
            device,
        ) by {
            assert(first.allows(device) == second.allows(device));
            assert(first.denies(device) == second.denies(device));
        }
        if first.serves(front, available) {
            let i = choose|i: int|
                0 <= i < available.len() && first.grants(front, #[trigger] available[i]);
            assert(first.grants(front, available[i]) == second.grants(front, available[i]));
        }
        if second.serves(front, available) {
            let i = choose|i: int|
                0 <= i < available.len() && second.grants(front, #[trigger] available[i]);
            assert(first.grants(front, available[i]) == second.grants(front, available[i]));
        }
    }
}

/// The allow list and the deny list count as sets of patterns: neither their order nor repetitions
/// change anything.
pub proof fn order_of_allow_and_deny_lists_does_not_matter(
    policy: CdiPolicyView,
    allowed: Seq<Seq<char>>,
    denied: Seq<Seq<char>>,
    available: Seq<Seq<char>>,
)
    requires
        policy.allowed is Some,
        forall|pattern: Seq<char>| #[trigger]
            policy.allowed->0.contains(pattern) <==> allowed.contains(pattern),
        forall|pattern: Seq<char>| #[trigger]
            policy.denied.contains(pattern) <==> denied.contains(pattern),
    ensures
        (CdiPolicyView { allowed: Some(allowed), denied, ..policy }).outcome(available)
            == policy.outcome(available),
{
    let other = CdiPolicyView { allowed: Some(allowed), denied, ..policy };
    assert forall|device: Seq<char>| #[trigger] policy.allows(device) == other.allows(device) by {
        same_patterns_match_alike(policy.allowed->0, allowed, device);
    }
    assert forall|device: Seq<char>| #[trigger] policy.denies(device) == other.denies(device) by {
        same_patterns_match_alike(policy.denied, denied, device);
    }
    policies_that_decide_alike_grant_alike(policy, other, policy.requested, available);
}

proof fn same_patterns_match_alike(
    first: Seq<Seq<char>>,
    second: Seq<Seq<char>>,
    device: Seq<char>,
)
    requires
        forall|pattern: Seq<char>| #[trigger]
            first.contains(pattern) <==> second.contains(pattern),
    ensures
        some_matches(first, device) == some_matches(second, device),
{
    if some_matches(first, device) {
        let i = choose|i: int|
            0 <= i < first.len() && wildcard_matches(#[trigger] first[i], device);
        assert(first.contains(first[i]));
        let j = second.index_of(first[i]);
        assert(wildcard_matches(second[j], device));
    }
    if some_matches(second, device) {
        let i = choose|i: int|
            0 <= i < second.len() && wildcard_matches(#[trigger] second[i], device);
        assert(second.contains(second[i]));
        assert(first.contains(second[i]));
        let j = first.index_of(second[i]);
        assert(wildcard_matches(first[j], device));
    }
}

/// More allow patterns never take a device away, and never stop a launch.
pub proof fn allowing_more_takes_no_device_away(
    policy: CdiPolicyView,
    more: Seq<Seq<char>>,
    available: Seq<Seq<char>>,
)
    requires
        policy.allowed is Some,
    ensures
        ({
            let wider = CdiPolicyView { allowed: Some(policy.allowed->0 + more), ..policy };
            policy.outcome(available) matches Ok(filtered) ==> {
                &&& wider.outcome(available) matches Ok(widened)
                &&& forall|device: Seq<char>| #[trigger]
                    filtered.devices.contains(device) ==> widened.devices.contains(device)
            }
        }),
{
    let wider = CdiPolicyView { allowed: Some(policy.allowed->0 + more), ..policy };
    assert forall|device: Seq<char>| is_allowed(policy, device) implies #[trigger] is_allowed(
        wider,
        device,
    ) by {
        let k = choose|k: int|
            0 <= k < policy.allowed->0.len() && wildcard_matches(
                #[trigger] policy.allowed->0[k],
                device,
            );
        assert(wider.allowed->0[k] == policy.allowed->0[k]);
    }
    sandbox_gets_exactly_the_granted_devices(policy, available);
    sandbox_gets_exactly_the_granted_devices(wider, available);
    every_selector_has_to_be_served(policy, available);
    every_selector_has_to_be_served(wider, available);
    if policy.outcome(available) is Ok {
        assert forall|i: int| 0 <= i < wider.requested.len() implies gets_something(
            wider,
            #[trigger] wider.requested[i],
            available,
        ) by {
            let selector = policy.requested[i];
            assert(gets_something(policy, selector, available));
            let j = choose|j: int|
                0 <= j < available.len() && gets(policy, selector, #[trigger] available[j]);
            assert(is_allowed(wider, available[j]));
            assert(gets(wider, selector, available[j]));
        }
    }
}

/// A policy without an allow list allows every device.
pub proof fn without_an_allow_list_every_device_is_allowed(
    policy: CdiPolicyView,
    available: Seq<Seq<char>>,
    device: Seq<char>,
)
    requires
        policy.allowed is None,
        policy.denied.len() == 0,
        available.contains(device),
        exists|k: int|
            0 <= k < policy.requested.len() && wildcard_matches(
                #[trigger] policy.requested[k],
                device,
            ),
    ensures
        policy.outcome(available) matches Ok(filtered) ==> filtered.devices.contains(device)
            && filtered.warnings.len() == 0,
{
    sandbox_gets_exactly_the_granted_devices(policy, available);
    denied_devices_are_warned_about(policy, available);
    let withheld = policy.withheld(available);
    if withheld.len() > 0 {
        assert(withheld.contains(withheld[0]));
    }
}

} // verus!
