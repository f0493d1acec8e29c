use crate::address::{same_key, Pubkey};
use crate::error::LedgerError;
use vstd::prelude::*;

verus! {

/// The bytes kept at `key`: those of the record there, none where no record
/// stands.
pub open spec fn record_at(records: Map<Seq<u8>, Seq<u8>>, key: Seq<u8>) -> Seq<u8> {
    if records.contains_key(key) {
        records[key]
    } else {
        Seq::empty()
    }
}

/// `records` with `data` kept at `key`. An address with no bytes holds no
/// record.
pub open spec fn put(records: Map<Seq<u8>, Seq<u8>>, key: Seq<u8>, data: Seq<u8>) -> Map<
    Seq<u8>,
    Seq<u8>,
> {
    if data.len() == 0 {
        records.remove(key)
    } else {
        records.insert(key, data)
    }
}

/// Storage as it is handed out: `size` bytes, all zero.
pub open spec fn zeros(size: nat) -> Seq<u8> {
    Seq::new(size, |i: int| 0u8)
}

/// `record` with `bytes` written over its front.
pub open spec fn overlay(record: Seq<u8>, bytes: Seq<u8>) -> Seq<u8> {
    bytes + record.subrange(bytes.len() as int, record.len() as int)
}

struct Slot {
    key: Pubkey,
    data: Vec<u8>,
}

spec fn holds(slots: Seq<Slot>, key: Seq<u8>, i: int) -> bool {
    0 <= i < slots.len() && slots[i].key@ == key
}

spec fn distinct(slots: Seq<Slot>) -> bool {
    forall|i: int, j: int| 0 <= i < j < slots.len() ==> slots[i].key@ != slots[j].key@
}

spec fn filled(slots: Seq<Slot>) -> bool {
    forall|i: int| 0 <= i < slots.len() ==> (#[trigger] slots[i]).data@.len() > 0
}

spec fn records_of(slots: Seq<Slot>) -> Map<Seq<u8>, Seq<u8>> {
    Map::new(
        |key: Seq<u8>| exists|i: int| holds(slots, key, i),
        |key: Seq<u8>| slots[choose|i: int| holds(slots, key, i)].data@,
    )
}

proof fn lemma_found(slots: Seq<Slot>, key: Seq<u8>, i: int)
    requires
        distinct(slots),
        holds(slots, key, i),
    ensures
        records_of(slots).contains_key(key),
        records_of(slots)[key] == slots[i].data@,
{
    let chosen = choose|j: int| holds(slots, key, j);
    assert(holds(slots, key, chosen));
    assert(chosen == i);
}

proof fn lemma_pushed(slots: Seq<Slot>, slot: Slot)
    requires
        distinct(slots),
        forall|i: int| !holds(slots, slot.key@, i),
    ensures
        distinct(slots.push(slot)),
        records_of(slots.push(slot)) == records_of(slots).insert(slot.key@, slot.data@),
{
    let after = slots.push(slot);
    assert forall|i: int, j: int| 0 <= i < j < after.len() implies after[i].key@
        != after[j].key@ by {
        if j == slots.len() {
            assert(!holds(slots, slot.key@, i));
        }
    }
    assert forall|key: Seq<u8>|
        records_of(after).contains_key(key) <==> #[trigger] records_of(slots).insert(
            slot.key@,
            slot.data@,
        ).contains_key(key) by {
        if records_of(after).contains_key(key) {
            let i = choose|i: int| holds(after, key, i);
            if i < slots.len() {
                assert(holds(slots, key, i));
            }
        }
        if key == slot.key@ {
            assert(holds(after, key, slots.len() as int));
        } else if records_of(slots).contains_key(key) {
            let i = choose|i: int| holds(slots, key, i);
            assert(holds(after, key, i));
        }
    }
    assert forall|key: Seq<u8>| records_of(after).contains_key(key) implies records_of(after)[key]
        == #[trigger] records_of(slots).insert(slot.key@, slot.data@)[key] by {
        let i = choose|i: int| holds(after, key, i);
        lemma_found(after, key, i);
        if i < slots.len() {
            assert(holds(slots, key, i));
            lemma_found(slots, key, i);
        }
    }
    assert(records_of(after) =~= records_of(slots).insert(slot.key@, slot.data@));
}

proof fn lemma_replaced(slots: Seq<Slot>, at: int, slot: Slot)
    requires
        distinct(slots),
        0 <= at < slots.len(),
        slot.key@ == slots[at].key@,
    ensures
        distinct(slots.update(at, slot)),
        records_of(slots.update(at, slot)) == records_of(slots).insert(slot.key@, slot.data@),
{
    let after = slots.update(at, slot);
    assert forall|key: Seq<u8>|
        records_of(after).contains_key(key) <==> #[trigger] records_of(slots).insert(
            slot.key@,
            slot.data@,
        ).contains_key(key) by {
        if records_of(after).contains_key(key) {
            let i = choose|i: int| holds(after, key, i);
            assert(holds(slots, key, i));
        }
        if key == slot.key@ {
            assert(holds(after, key, at));
        } else if records_of(slots).contains_key(key) {
            let i = choose|i: int| holds(slots, key, i);
            assert(holds(after, key, i));
        }
    }
    assert forall|key: Seq<u8>| records_of(after).contains_key(key) implies records_of(after)[key]
        == #[trigger] records_of(slots).insert(slot.key@, slot.data@)[key] by {
        let i = choose|i: int| holds(after, key, i);
        lemma_found(after, key, i);
        assert(holds(slots, key, i));
        lemma_found(slots, key, i);
    }
    assert(records_of(after) =~= records_of(slots).insert(slot.key@, slot.data@));
}

fn find(slots: &Vec<Slot>, key: &Pubkey) -> (found: Option<usize>)
    ensures
        match found {
            Some(i) => holds(slots@, key@, i as int),
            None => forall|i: int| !holds(slots@, key@, i),
        },
{
    let mut i: usize = 0;
    while i < slots.len()
        invariant
            i <= slots.len(),
            forall|j: int| 0 <= j < i ==> !holds(slots@, key@, j),
        decreases slots.len() - i,
    {
        if same_key(&slots[i].key, key) {
            return Some(i);
        }
        i += 1;
    }
    None
}

/// The records of a ledger, each kept under its address.
///
/// The store stands for the storage that the host provides: a record is
/// created with a fixed size, filled with zeros, and is written in place
/// afterwards. An address holds at most one record.
pub struct Store {
    slots: Vec<Slot>,
}

impl View for Store {
    type V = Map<Seq<u8>, Seq<u8>>;

    /// The bytes of every record, by address. No record is empty.
    closed spec fn view(&self) -> Map<Seq<u8>, Seq<u8>> {
        records_of(self.slots@)
    }
}

impl Store {
    #[verifier::type_invariant]
    spec fn well_formed(self) -> bool {
        distinct(self.slots@) && filled(self.slots@)
    }

    /// A store without records.
    pub fn new() -> (store: Store)
        ensures
            store@ == Map::<Seq<u8>, Seq<u8>>::empty(),
    {
        let store = Store { slots: Vec::new() };
        assert(store@ =~= Map::<Seq<u8>, Seq<u8>>::empty());
        store
    }

    /// The record at `key`, if one stands there. A record is never empty.
    pub fn get(&self, key: &Pubkey) -> (data: Option<&Vec<u8>>)
        ensures
            match data {
                Some(bytes) => self@.contains_key(key@) && self@[key@] == bytes@ && bytes@.len()
                    > 0,
                None => !self@.contains_key(key@),
            },
    {
        proof {
            use_type_invariant(self);
        }
        match find(&self.slots, key) {
            Some(i) => {
                proof {
                    lemma_found(self.slots@, key@, i as int);
                }
                Some(&self.slots[i].data)
            },
            None => None,
        }
    }

    /// Provides a record of `size` zero bytes at `target`, or fails with
    /// `AllocError` where a record stands there already. A size of zero
    /// provides nothing.
    pub fn create_record(&mut self, target: &Pubkey, size: usize) -> (out: Result<(), LedgerError>)
        ensures
            match out {
                Ok(_) => !old(self)@.contains_key(target@) && final(self)@ == put(
                    old(self)@,
                    target@,
                    zeros(size as nat),
                ),
                Err(e) => e == LedgerError::AllocError && old(self)@.contains_key(target@)
                    && final(self)@ == old(self)@,
            },
    {
        proof {
            use_type_invariant(&*self);
        }
        match find(&self.slots, target) {
            Some(i) => {
                proof {
                    lemma_found(self.slots@, target@, i as int);
                }
                Err(LedgerError::AllocError)
            },
            None => {
                if size == 0 {
                    assert(old(self)@.remove(target@) =~= old(self)@);
                    return Ok(());
                }
                let mut data: Vec<u8> = Vec::new();
                let mut n: usize = 0;
                while n < size
                    invariant
                        n <= size,
                        data@ == zeros(n as nat),
                    decreases size - n,
                {
                    data.push(0u8);
                    n += 1;
                    assert(data@ =~= zeros(n as nat));
                }
                let slot = Slot { key: *target, data };
                proof {
                    lemma_pushed(self.slots@, slot);
                }
                let mut slots: Vec<Slot> = Vec::new();
                std::mem::swap(&mut slots, &mut self.slots);
                slots.push(slot);
                self.slots = slots;
                Ok(())
            },
        }
    }

    /// Writes `bytes` over the front of the record at `target`, or fails with
    /// `DecodeError` where they are longer than the record. The record keeps
    /// its size, and what stands behind the bytes written.
    pub fn write(&mut self, target: &Pubkey, bytes: &[u8]) -> (out: Result<(), LedgerError>)
        ensures
            match out {
                Ok(_) => bytes@.len() <= record_at(old(self)@, target@).len() && final(self)@
                    == put(old(self)@, target@, overlay(record_at(old(self)@, target@), bytes@)),
                Err(e) => e == LedgerError::DecodeError && bytes@.len() > record_at(
                    old(self)@,
                    target@,
                ).len() && final(self)@ == old(self)@,
            },
    {
        proof {
            use_type_invariant(&*self);
        }
        match find(&self.slots, target) {
            None => {
                if bytes.len() > 0 {
                    return Err(LedgerError::DecodeError);
                }
                assert(old(self)@.remove(target@) =~= old(self)@);
                Ok(())
            },
            Some(i) => {
                proof {
                    lemma_found(self.slots@, target@, i as int);
                }
                let size: usize = self.slots[i].data.len();
                if bytes.len() > size {
                    return Err(LedgerError::DecodeError);
                }
                let ghost record = self.slots[i as int].data@;
                let mut data: Vec<u8> = Vec::new();
                let mut n: usize = 0;
                while n < size
                    invariant
                        n <= size,
                        0 <= i < self.slots.len(),
                        size == record.len(),
                        record == self.slots[i as int].data@,
                        bytes@.len() <= size,
                        data@.len() == n,
                        forall|j: int|
                            0 <= j < n ==> data@[j] == if j < bytes@.len() {
                                bytes@[j]
                            } else {
                                record[j]
                            },
                    decreases size - n,
                {
                    if n < bytes.len() {
                        data.push(bytes[n]);
                    } else {
                        data.push(self.slots[i].data[n]);
                    }
                    n += 1;
                }
                assert(data@ =~= overlay(record, bytes@));
                let slot = Slot { key: *target, data };
                proof {
                    lemma_replaced(self.slots@, i as int, slot);
                }
                let mut slots: Vec<Slot> = Vec::new();
                std::mem::swap(&mut slots, &mut self.slots);
                slots[i] = slot;
                self.slots = slots;
                Ok(())
            },
        }
    }
}

} // verus!
