//! The interrupt table: the interrupts of all peripherals, each at the
//! index of its slot, with nothing at the slots that no interrupt takes.
use crate::error::{Diagnostic, DiagnosticView};
use crate::ir::{Interrupt, InterruptView, PeripheralMod, PeripheralView};
use crate::ordered::views;
use vstd::prelude::*;

verus! {

/// The interrupts of the peripherals `ps`, peripheral by peripheral in
/// order.
pub open spec fn all_interrupts(ps: Seq<PeripheralView>) -> Seq<InterruptView>
    decreases ps.len(),
{
    if ps.len() == 0 {
        Seq::empty()
    } else {
        all_interrupts(ps.drop_last()) + ps.last().interrupts
    }
}

/// The largest slot that an interrupt of `flat` takes; -1 where there is no
/// interrupt.
pub open spec fn max_slot(flat: Seq<InterruptView>) -> int
    decreases flat.len(),
{
    if flat.len() == 0 {
        -1
    } else {
        let m = max_slot(flat.drop_last());
        if flat.last().value > m {
            flat.last().value as int
        } else {
            m
        }
    }
}

/// The interrupt that holds the slot `slot`: the last of `flat` that takes
/// it.
pub open spec fn slot_holder(flat: Seq<InterruptView>, slot: int) -> Option<InterruptView>
    decreases flat.len(),
{
    if flat.len() == 0 {
        None
    } else if flat.last().value == slot {
        Some(flat.last())
    } else {
        slot_holder(flat.drop_last(), slot)
    }
}

/// The interrupt table of the interrupts `flat`: as long as the largest
/// slot plus one, with at each index the interrupt that holds that slot.
pub open spec fn interrupt_table(flat: Seq<InterruptView>) -> Seq<Option<InterruptView>> {
    Seq::new((max_slot(flat) + 1) as nat, |slot: int| slot_holder(flat, slot))
}

/// The diagnostics of the interrupts `flat`: one for each interrupt that
/// takes a slot that an earlier one has taken, in order.
pub open spec fn duplicate_slots(flat: Seq<InterruptView>) -> Seq<DiagnosticView>
    decreases flat.len(),
{
    if flat.len() == 0 {
        Seq::empty()
    } else if slot_holder(flat.drop_last(), flat.last().value as int) is Some {
        duplicate_slots(flat.drop_last()).push(
            DiagnosticView::DuplicateInterrupt { value: flat.last().value },
        )
    } else {
        duplicate_slots(flat.drop_last())
    }
}

/// Whether every slot of `flat` can index a table.
pub open spec fn slots_in_range(flat: Seq<InterruptView>) -> bool {
    forall|k: int| 0 <= k < flat.len() ==> (#[trigger] flat[k]).value < usize::MAX
}

/// The views of the entries of a table.
pub open spec fn table_views(table: Seq<Option<Interrupt>>) -> Seq<Option<InterruptView>> {
    table.map_values(
        |entry: Option<Interrupt>|
            match entry {
                Some(i) => Some(i@),
                None => None,
            },
    )
}

/// No interrupt takes a slot above the largest, and no slot is below -1.
pub proof fn lemma_max_slot(flat: Seq<InterruptView>)
    ensures
        max_slot(flat) >= -1,
        max_slot(flat) <= u32::MAX,
        flat.len() > 0 ==> max_slot(flat) >= 0,
        flat.len() > 0 ==> exists|k: int|
            0 <= k < flat.len() && (#[trigger] flat[k]).value == max_slot(flat),
        forall|k: int| 0 <= k < flat.len() ==> (#[trigger] flat[k]).value <= max_slot(flat),
    decreases flat.len(),
{
    if flat.len() > 0 {
        lemma_max_slot(flat.drop_last());
        if flat.last().value > max_slot(flat.drop_last()) {
            assert(flat[flat.len() - 1].value == max_slot(flat));
        } else {
            let k = choose|k: int|
                0 <= k < flat.drop_last().len() && (#[trigger] flat.drop_last()[k]).value
                    == max_slot(flat.drop_last());
            assert(flat[k].value == max_slot(flat));
        }
        assert forall|k: int| 0 <= k < flat.len() implies (#[trigger] flat[k]).value <= max_slot(
            flat,
        ) by {
            if k < flat.len() - 1 {
                assert(flat.drop_last()[k] == flat[k]);
            }
        }
    }
}

/// The interrupts of the peripherals, peripheral by peripheral in order.
pub fn collect_interrupts(peripheral_types: &Vec<PeripheralMod>) -> (flat: Vec<Interrupt>)
    ensures
        views(flat@) == all_interrupts(views(peripheral_types@)),
{
    let mut flat: Vec<Interrupt> = Vec::new();
    let mut i: usize = 0;
    proof {
        assert(views(peripheral_types@).take(0).len() == 0);
        assert(views(flat@) =~= Seq::empty());
    }
    while i < peripheral_types.len()
        invariant
            i <= peripheral_types.len(),
            views(flat@) == all_interrupts(views(peripheral_types@).take(i as int)),
        decreases peripheral_types.len() - i,
    {
        let ghost before = views(flat@);
        let interrupts = &peripheral_types[i].interrupts;
        let mut j: usize = 0;
        proof {
            assert(before + views(interrupts@).take(0) =~= before);
        }
        while j < interrupts.len()
            invariant
                j <= interrupts.len(),
                views(flat@) == before + views(interrupts@).take(j as int),
            decreases interrupts.len() - j,
        {
            let ghost flat_before = flat@;
            let copy = interrupts[j].clone();
            flat.push(copy);
            proof {
                assert(views(flat@) =~= views(flat_before).push(copy@));
                assert(views(interrupts@).take(j + 1) =~= views(interrupts@).take(j as int).push(
                    interrupts@[j as int]@,
                ));
                assert(views(flat@) =~= before + views(interrupts@).take(j + 1));
            }
            j += 1;
        }
        proof {
            let ps = views(peripheral_types@);
            assert(views(interrupts@).take(interrupts@.len() as int) =~= views(interrupts@));
            assert(ps.take(i + 1).drop_last() =~= ps.take(i as int));
            assert(ps.take(i + 1).last().interrupts == views(interrupts@));
        }
        i += 1;
    }
    proof {
        let ps = views(peripheral_types@);
        assert(ps.take(ps.len() as int) =~= ps);
    }
    flat
}

/// Whether every slot of the interrupts of the peripherals can index a
/// table.
pub fn interrupts_in_range(peripheral_types: &Vec<PeripheralMod>) -> (r: bool)
    ensures
        r == slots_in_range(all_interrupts(views(peripheral_types@))),
{
    let flat = collect_interrupts(peripheral_types);
    let mut i: usize = 0;
    while i < flat.len()
        invariant
            i <= flat.len(),
            views(flat@) == all_interrupts(views(peripheral_types@)),
            forall|k: int| 0 <= k < i ==> (#[trigger] views(flat@)[k]).value < usize::MAX,
        decreases flat.len() - i,
    {
        if flat[i].value as u64 >= usize::MAX as u64 {
            proof {
                assert(views(flat@)[i as int].value >= usize::MAX);
            }
            return false;
        }
        i += 1;
    }
    true
}

fn largest_slot(flat: &Vec<Interrupt>) -> (r: Option<u32>)
    ensures
        match r {
            Some(m) => m == max_slot(views(flat@)),
            None => max_slot(views(flat@)) == -1 && flat@.len() == 0,
        },
{
    let mut max: Option<u32> = None;
    let mut i: usize = 0;
    proof {
        assert(views(flat@).take(0).len() == 0);
    }
    while i < flat.len()
        invariant
            i <= flat.len(),
            match max {
                Some(m) => m == max_slot(views(flat@).take(i as int)) && i > 0,
                None => max_slot(views(flat@).take(i as int)) == -1 && i == 0,
            },
        decreases flat.len() - i,
    {
        proof {
            let s = views(flat@);
            assert(s.take(i + 1).drop_last() =~= s.take(i as int));
            assert(s.take(i + 1).last() == flat@[i as int]@);
        }
        let value = flat[i].value;
        max = match max {
            Some(m) => if value > m {
                Some(value)
            } else {
                Some(m)
            },
            None => Some(value),
        };
        i += 1;
    }
    proof {
        assert(views(flat@).take(flat@.len() as int) =~= views(flat@));
    }
    max
}

/// The interrupt table of the peripherals: each interrupt at the index of
/// its slot, nothing at the slots that no interrupt takes, and as long as
/// the largest slot plus one; empty where no peripheral has an interrupt.
/// Where two interrupts take the same slot, the later one stays and a
/// diagnostic is appended to `diagnostics`.
pub fn get_interrupt_table(
    peripheral_types: &Vec<PeripheralMod>,
    diagnostics: &mut Vec<Diagnostic>,
) -> (table: Vec<Option<Interrupt>>)
    requires
        slots_in_range(all_interrupts(views(peripheral_types@))),
    ensures
        table_views(table@) == interrupt_table(all_interrupts(views(peripheral_types@))),
        views(final(diagnostics)@) == views(old(diagnostics)@) + duplicate_slots(
            all_interrupts(views(peripheral_types@)),
        ),
{
    let flat = collect_interrupts(peripheral_types);
    let ghost all = views(flat@);
    let ghost before = views(diagnostics@);
    let mut table: Vec<Option<Interrupt>> = Vec::new();
    let max = match largest_slot(&flat) {
        None => {
            proof {
                assert(table_views(table@) =~= interrupt_table(all));
                assert(before + duplicate_slots(all) =~= before);
            }
            return table;
        },
        Some(max) => max,
    };
    proof {
        lemma_max_slot(all);
        let k = choose|k: int| 0 <= k < all.len() && (#[trigger] all[k]).value == max_slot(all);
        assert(all[k].value < usize::MAX);
    }
    let len: usize = max as usize + 1;
    let mut n: usize = 0;
    while n < len
        invariant
            n <= len,
            table@.len() == n,
            forall|s: int| 0 <= s < n ==> (#[trigger] table@[s]) is None,
        decreases len - n,
    {
        table.push(None);
        n += 1;
    }
    let mut i: usize = 0;
    proof {
        assert(all.take(0).len() == 0);
        assert(before + duplicate_slots(all.take(0)) =~= before);
    }
    while i < flat.len()
        invariant
            i <= flat.len(),
            all == views(flat@),
            len == max_slot(all) + 1,
            table@.len() == len,
            forall|s: int|
                0 <= s < len ==> (#[trigger] table_views(table@)[s]) == slot_holder(
                    all.take(i as int),
                    s,
                ),
            views(diagnostics@) == before + duplicate_slots(all.take(i as int)),
        decreases flat.len() - i,
    {
        proof {
            lemma_max_slot(all);
            assert(all.take(i + 1).drop_last() =~= all.take(i as int));
            assert(all.take(i + 1).last() == flat@[i as int]@);
            assert(all[i as int].value <= max_slot(all));
        }
        let interrupt = flat[i].clone();
        let interrupt_id = interrupt.value as usize;
        let ghost diagnostics_before = views(diagnostics@);
        let ghost table_before = table@;
        if table[interrupt_id].is_some() {
            diagnostics.push(Diagnostic::DuplicateInterrupt { value: interrupt.value });
            proof {
                assert(table_views(table@)[interrupt_id as int] is Some);
                assert(views(diagnostics@) =~= diagnostics_before.push(
                    DiagnosticView::DuplicateInterrupt { value: interrupt.value },
                ));
            }
        } else {
            proof {
                assert(table_views(table@)[interrupt_id as int] is None);
            }
        }
        table.set(interrupt_id, Some(interrupt));
        proof {
            assert forall|s: int| 0 <= s < len implies (#[trigger] table_views(table@)[s])
                == slot_holder(all.take(i + 1), s) by {
                if s != interrupt_id {
                    assert(table_views(table_before)[s] == slot_holder(all.take(i as int), s));
                }
            }
        }
        i += 1;
    }
    proof {
        assert(all.take(all.len() as int) =~= all);
        assert(table_views(table@) =~= interrupt_table(all));
    }
    table
}

} // verus!
