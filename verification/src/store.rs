//! The latest reading of each device.

use crate::reading::{Sample, SampleKey, SampleKeyView, SampleView};
use vstd::prelude::*;

verus! {

/// Whether no two of the readings come from the same device.
pub open spec fn distinct_keys(entries: Seq<SampleView>) -> bool {
    forall|i: int, j: int|
        0 <= i < j < entries.len() ==> (#[trigger] entries[i]).key() != (#[trigger] entries[j]).key()
}

/// The first place at or after `from` that holds a reading of the device
/// `key`.
pub open spec fn position_from(entries: Seq<SampleView>, key: SampleKeyView, from: int) -> Option<
    int,
>
    decreases entries.len() - from,
{
    if from < 0 || from >= entries.len() {
        None
    } else if entries[from].key() == key {
        Some(from)
    } else {
        position_from(entries, key, from + 1)
    }
}

/// The place that holds a reading of the device `key`.
pub open spec fn position(entries: Seq<SampleView>, key: SampleKeyView) -> Option<int> {
    position_from(entries, key, 0)
}

/// The reading kept for the device `key`.
pub open spec fn lookup(entries: Seq<SampleView>, key: SampleKeyView) -> Option<SampleView> {
    match position(entries, key) {
        Some(i) => Some(entries[i]),
        None => None,
    }
}

/// The readings as a mapping from devices to the reading kept for each.
pub open spec fn mapping(entries: Seq<SampleView>) -> Map<SampleKeyView, SampleView> {
    Map::new(
        |key: SampleKeyView| lookup(entries, key) is Some,
        |key: SampleKeyView| lookup(entries, key).unwrap(),
    )
}

/// The readings after `reading` came in: it takes the place of the reading
/// kept for its device, or it is added at the end where none was kept.
pub open spec fn upserted(entries: Seq<SampleView>, reading: SampleView) -> Seq<SampleView> {
    match position(entries, reading.key()) {
        Some(i) => entries.update(i, reading),
        None => entries.push(reading),
    }
}

/// How many of the readings come from the device `key`.
pub open spec fn count_of(entries: Seq<SampleView>, key: SampleKeyView) -> nat
    decreases entries.len(),
{
    if entries.len() == 0 {
        0
    } else {
        count_of(entries.drop_last(), key) + if entries.last().key() == key {
            1nat
        } else {
            0nat
        }
    }
}

/// What a search from `from` finds: a place at or after `from` that holds the
/// device and has none of it between, or that there is none from there on.
pub proof fn lemma_position_from(entries: Seq<SampleView>, key: SampleKeyView, from: int)
    requires
        0 <= from <= entries.len(),
    ensures
        match position_from(entries, key, from) {
            Some(i) => {
                &&& from <= i < entries.len()
                &&& entries[i].key() == key
                &&& forall|j: int| from <= j < i ==> (#[trigger] entries[j]).key() != key
            },
            None => forall|j: int| from <= j < entries.len() ==> (#[trigger] entries[j]).key() != key,
        },
    decreases entries.len() - from,
{
    if from < entries.len() && entries[from].key() != key {
        lemma_position_from(entries, key, from + 1);
    }
}

/// Among readings of distinct devices, a place that holds the device is the
/// place that the search finds.
pub proof fn lemma_position_unique(entries: Seq<SampleView>, key: SampleKeyView, at: int)
    requires
        distinct_keys(entries),
        0 <= at < entries.len(),
        entries[at].key() == key,
    ensures
        position(entries, key) == Some(at),
{
    lemma_position_from(entries, key, 0);
}

/// Taking a reading in keeps the devices distinct.
pub proof fn lemma_upserted_distinct(entries: Seq<SampleView>, reading: SampleView)
    requires
        distinct_keys(entries),
    ensures
        distinct_keys(upserted(entries, reading)),
{
    lemma_position_from(entries, reading.key(), 0);
}

/// Among readings of distinct devices, a device that is found occurs once,
/// and one that is not found does not occur.
pub proof fn lemma_count_of(entries: Seq<SampleView>, key: SampleKeyView)
    requires
        distinct_keys(entries),
    ensures
        count_of(entries, key) == (if position(entries, key) is Some {
            1nat
        } else {
            0nat
        }),
    decreases entries.len(),
{
    lemma_position_from(entries, key, 0);
    if entries.len() > 0 {
        let front = entries.drop_last();
        lemma_count_of(front, key);
        lemma_position_from(front, key, 0);
        if entries.last().key() == key {
            assert(position(front, key) is None) by {
                if position(front, key) is Some {
                    let i = position(front, key).unwrap();
                    assert(front[i] == entries[i]);
                }
            }
        } else {
            match position(front, key) {
                Some(i) => {
                    assert(front[i] == entries[i]);
                    lemma_position_unique(entries, key, i);
                },
                None => {
                    assert forall|j: int| 0 <= j < entries.len() implies (
                    #[trigger] entries[j]).key() != key by {
                        if j < front.len() {
                            assert(front[j] == entries[j]);
                        }
                    }
                },
            }
        }
    }
}

/// After a reading came in, it is the one kept for its device, the store
/// holds it exactly once, and every other device keeps what it had.
pub proof fn lemma_upserted_lookup(entries: Seq<SampleView>, reading: SampleView)
    requires
        distinct_keys(entries),
    ensures
        lookup(upserted(entries, reading), reading.key()) == Some(reading),
        count_of(upserted(entries, reading), reading.key()) == 1,
        forall|key: SampleKeyView|
            key != reading.key() ==> lookup(upserted(entries, reading), key) == lookup(
                entries,
                key,
            ),
{
    let after = upserted(entries, reading);
    lemma_position_from(entries, reading.key(), 0);
    lemma_upserted_distinct(entries, reading);
    let at = match position(entries, reading.key()) {
        Some(i) => i,
        None => entries.len() as int,
    };
    assert(after[at] == reading);
    lemma_position_unique(after, reading.key(), at);
    lemma_count_of(after, reading.key());
    assert forall|key: SampleKeyView| key != reading.key() implies lookup(after, key) == lookup(
        entries,
        key,
    ) by {
        lemma_position_from(entries, key, 0);
        lemma_position_from(after, key, 0);
        match position(entries, key) {
            Some(i) => {
                assert(after[i] == entries[i]);
                lemma_position_unique(after, key, i);
            },
            None => {
                if position(after, key) is Some {
                    let j = position(after, key).unwrap();
                    if j < entries.len() {
                        assert(after[j] == entries[j] || j == at);
                    }
                }
            },
        }
    }
}

/// Taking a reading in sets what the mapping holds for its device, and
/// nothing else.
pub proof fn lemma_upserted_mapping(entries: Seq<SampleView>, reading: SampleView)
    requires
        distinct_keys(entries),
    ensures
        mapping(upserted(entries, reading)) == mapping(entries).insert(reading.key(), reading),
{
    lemma_upserted_lookup(entries, reading);
    assert(mapping(upserted(entries, reading)) =~= mapping(entries).insert(
        reading.key(),
        reading,
    ));
}

/// Two readings of one device, one after the other: the store is as if
/// only the second had come in. It holds one reading of that device, the
/// second, with the second's values and time; where the store was empty,
/// that is its only entry.
pub proof fn lemma_last_write_wins(entries: Seq<SampleView>, first: SampleView, second: SampleView)
    requires
        distinct_keys(entries),
        first.key() == second.key(),
    ensures
        upserted(upserted(entries, first), second) == upserted(entries, second),
        lookup(upserted(upserted(entries, first), second), second.key()) == Some(second),
        count_of(upserted(upserted(entries, first), second), second.key()) == 1,
        entries.len() == 0 ==> upserted(upserted(entries, first), second) == seq![second],
{
    let key = second.key();
    let middle = upserted(entries, first);
    lemma_position_from(entries, key, 0);
    lemma_upserted_distinct(entries, first);
    lemma_upserted_lookup(entries, second);
    let at = match position(entries, key) {
        Some(i) => i,
        None => entries.len() as int,
    };
    assert(middle[at] == first);
    lemma_position_unique(middle, key, at);
    assert(upserted(middle, second) =~= upserted(entries, second));
    if entries.len() == 0 {
        assert(upserted(entries, second) =~= seq![second]);
    }
}

/// The latest reading of each device, in the order in which the devices
/// were first heard.
pub struct Store {
    entries: Vec<Sample>,
}

impl View for Store {
    type V = Seq<SampleView>;

    closed spec fn view(&self) -> Seq<SampleView> {
        self.entries.deep_view()
    }
}

impl Store {
    #[verifier::type_invariant]
    spec fn well_formed(self) -> bool {
        distinct_keys(self.entries.deep_view())
    }

    /// A store that holds no reading.
    pub fn new() -> (r: Store)
        ensures
            r@ == Seq::<SampleView>::empty(),
    {
        let r = Store { entries: Vec::new() };
        assert(r.entries.deep_view() =~= Seq::<SampleView>::empty());
        r
    }

    /// The number of devices heard so far.
    pub fn len(&self) -> (r: usize)
        ensures
            r == self@.len(),
            distinct_keys(self@),
    {
        proof {
            use_type_invariant(self);
        }
        self.entries.len()
    }

    /// The readings kept, in the order in which the devices were first heard.
    pub fn entries(&self) -> (r: &Vec<Sample>)
        ensures
            r.deep_view() == self@,
            distinct_keys(self@),
    {
        proof {
            use_type_invariant(self);
        }
        &self.entries
    }

    /// The place of the reading kept for the device `(model, id)`.
    fn find(&self, model: &String, id: Option<u32>) -> (r: Option<usize>)
        ensures
            match r {
                Some(i) => i < self@.len() && position(
                    self@,
                    (SampleKeyView { model: model@, id }),
                ) == Some(i as int),
                None => position(self@, (SampleKeyView { model: model@, id })) is None,
            },
    {
        let ghost key = SampleKeyView { model: model@, id };
        let mut i: usize = 0;
        while i < self.entries.len()
            invariant
                i <= self.entries.len(),
                position(self@, key) == position_from(self@, key, i as int),
                key == (SampleKeyView { model: model@, id }),
            decreases self.entries.len() - i,
        {
            let entry = &self.entries[i];
            assert(self@[i as int] == entry@);
            if entry.is_device(model, id) {
                return Some(i);
            }
            i = i + 1;
        }
        None
    }

    /// Takes a reading in: it replaces the reading kept for its device, whole,
    /// or is added where the device is new. No other device is touched.
    pub fn upsert(&mut self, reading: Sample)
        ensures
            final(self)@ == upserted(old(self)@, reading@),
            distinct_keys(final(self)@),
    {
        proof {
            use_type_invariant(&*self);
            lemma_upserted_distinct(self@, reading@);
        }
        let found = self.find(reading.model(), reading.id());
        let mut entries: Vec<Sample> = Vec::new();
        core::mem::swap(&mut self.entries, &mut entries);
        match found {
            Some(i) => {
                entries.set(i, reading);
            },
            None => {
                entries.push(reading);
            },
        }
        assert(entries.deep_view() =~= upserted(old(self)@, reading@));
        core::mem::swap(&mut self.entries, &mut entries);
    }

    /// The reading kept for the device `key`.
    pub fn get(&self, key: &SampleKey) -> (r: Option<&Sample>)
        ensures
            match r {
                Some(s) => lookup(self@, key@) == Some(s@),
                None => lookup(self@, key@) is None,
            },
    {
        match self.find(&key.model, key.id) {
            Some(i) => Some(&self.entries[i]),
            None => None,
        }
    }

    /// A copy of every reading kept, each whole, as the store holds them at
    /// the time of the call.
    pub fn snapshot(&self) -> (r: Vec<Sample>)
        ensures
            r.deep_view() == self@,
            distinct_keys(r.deep_view()),
    {
        proof {
            use_type_invariant(self);
        }
        let mut copy: Vec<Sample> = Vec::new();
        let mut i: usize = 0;
        while i < self.entries.len()
            invariant
                i <= self.entries.len(),
                copy.len() == i,
                forall|j: int| 0 <= j < i ==> (#[trigger] copy[j])@ == self.entries[j]@,
            decreases self.entries.len() - i,
        {
            copy.push(self.entries[i].clone());
            i = i + 1;
        }
        assert(copy.deep_view() =~= self@);
        copy
    }
}

} // verus!
