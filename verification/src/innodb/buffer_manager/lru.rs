//! A buffer manager with a fixed number of frames. A page that is not resident takes
//! the place of the unpinned page that was touched least recently.
use std::collections::HashMap;
use std::time::{Duration, SystemTime, SystemTimeError};
use vstd::prelude::*;
use vstd::set_lib::{lemma_int_range, lemma_len_subset, set_int_range};

use crate::innodb::buffer_manager::{BufferManager, PageGuard, PageSource};
use crate::innodb::page::{crc32_checksum_of, FILHeader, Page, FIL_PAGE_SIZE};
use crate::innodb::InnoDBError;

verus! {

broadcast use vstd::std_specs::hash::group_hash_axioms;

/// Number of frames.
pub const LRU_PAGE_COUNT: usize = 16;

/// The key of a page in the directory: its space id above its page number.
pub open spec fn page_key_of(space_id: u32, page_number: u32) -> u64 {
    (space_id * 0x1_0000_0000 + page_number) as u64
}

/// The key of a page in a directory.
pub fn page_key(space_id: u32, page_number: u32) -> (r: u64)
    ensures
        r == page_key_of(space_id, page_number),
{
    (space_id as u64) * 0x1_0000_0000 + page_number as u64
}

/// What the frames hold and what the manager knows about them.
pub struct LRUBufferManager<S: PageSource> {
    source: S,
    backing_store: Vec<Vec<u8>>,
    page_pin_counter: Vec<u32>,
    /// The page that each resident frame holds.
    frame_pages: Vec<(u32, u32)>,
    /// From the key of each resident page to its frame.
    page_pin_map: HashMap<u64, usize>,
    /// When each frame was last touched; 0 in a free frame.
    lru_list: Vec<u64>,
}

/// The type of std for a point in time, which is opaque here.
#[verifier::external_type_specification]
#[verifier::external_body]
pub struct ExSystemTime(std::time::SystemTime);

/// The type of std for the error of a time that lies before another, which is opaque
/// here.
#[verifier::external_type_specification]
#[verifier::external_body]
pub struct ExSystemTimeError(std::time::SystemTimeError);

/// Calls `SystemTime::now`. Nothing is promised about the time.
#[verifier::external_body]
fn system_time_now() -> SystemTime {
    SystemTime::now()
}

/// Calls `SystemTime::duration_since` with the epoch as the earlier time. Nothing is
/// promised about the span, nor that there is one.
#[verifier::external_body]
fn time_since_epoch(time: &SystemTime) -> Result<Duration, SystemTimeError> {
    time.duration_since(SystemTime::UNIX_EPOCH)
}

/// Calls `Duration::as_nanos`. Nothing is promised about the number.
#[verifier::external_body]
fn nanos_of(span: &Duration) -> u128 {
    span.as_nanos()
}

/// The time of the system clock in nanoseconds since the epoch, as far as 64 bits hold
/// it; 0 where the clock stands before the epoch.
fn clock_nanos() -> u64 {
    let now = system_time_now();
    match time_since_epoch(&now) {
        Ok(span) => (nanos_of(&span) % 0x1_0000_0000_0000_0000) as u64,
        Err(_) => 0,
    }
}

impl<S: PageSource> LRUBufferManager<S> {
    /// When frame `i` was last touched; 0 in a free frame.
    pub closed spec fn touch(&self, i: int) -> u64 {
        self.lru_list@[i]
    }

    /// The number of pins on frame `i`.
    pub closed spec fn frame_pins(&self, i: int) -> u32 {
        self.page_pin_counter@[i]
    }

    /// The page that frame `i` holds, where it holds one.
    pub closed spec fn frame_page(&self, i: int) -> (u32, u32) {
        self.frame_pages@[i]
    }

    /// The bytes of frame `i`.
    pub closed spec fn frame_bytes(&self, i: int) -> Seq<u8> {
        self.backing_store@[i]@
    }

    /// The directory: from page keys to frames.
    pub closed spec fn directory(&self) -> Map<u64, usize> {
        self.page_pin_map@
    }

    /// Frame `i` holds a page.
    pub open spec fn resident(&self, i: int) -> bool {
        0 <= i < LRU_PAGE_COUNT && self.touch(i) != 0
    }

    /// The frames that hold a page.
    pub open spec fn resident_frames(&self) -> Set<int> {
        Set::new(|i: int| self.resident(i))
    }

    /// The key of the page in frame `i`.
    pub open spec fn frame_key(&self, i: int) -> u64 {
        page_key_of(self.frame_page(i).0, self.frame_page(i).1)
    }

    /// A resident frame is listed in the directory under the key of its page, and its
    /// bytes are a page with that space id and page number and a matching CRC-32C
    /// checksum.
    pub open spec fn frame_consistent(&self, i: int) -> bool {
        let header = FILHeader::decode(self.frame_bytes(i));
        &&& self.directory().contains_key(self.frame_key(i))
        &&& self.directory()[self.frame_key(i)] == i
        &&& self.frame_bytes(i).len() == FIL_PAGE_SIZE
        &&& header.space_id == self.frame_page(i).0
        &&& header.offset == self.frame_page(i).1
        &&& header.new_checksum == crc32_checksum_of(self.frame_bytes(i))
    }

    /// An entry of the directory leads to a resident frame that holds the page.
    pub open spec fn entry_consistent(&self, k: u64) -> bool {
        let i = self.directory()[k] as int;
        self.resident(i) && self.frame_key(i) == k
    }

    /// There is bookkeeping for each frame.
    pub closed spec fn sized(&self) -> bool {
        &&& self.backing_store@.len() == LRU_PAGE_COUNT
        &&& self.page_pin_counter@.len() == LRU_PAGE_COUNT
        &&& self.lru_list@.len() == LRU_PAGE_COUNT
        &&& self.frame_pages@.len() == LRU_PAGE_COUNT
    }

    /// A frame is in order: consistent where it holds a page, without pins where it is
    /// free.
    pub open spec fn frame_ok(&self, i: int) -> bool {
        if self.resident(i) {
            self.frame_consistent(i)
        } else {
            self.frame_pins(i) == 0
        }
    }

    /// The bookkeeping is consistent: a free frame has no pins, and frames and
    /// directory agree.
    pub open spec fn wf(&self) -> bool {
        &&& self.sized()
        &&& forall|i: int| 0 <= i < LRU_PAGE_COUNT ==> #[trigger] self.frame_ok(i)
        &&& forall|k: u64| #[trigger]
            self.directory().contains_key(k) ==> self.entry_consistent(k)
    }

    /// The number of pins on a page: those of its frame, none where it is not resident.
    pub open spec fn pins_on(&self, space_id: u32, page_number: u32) -> nat {
        let key = page_key_of(space_id, page_number);
        if self.directory().contains_key(key) {
            self.frame_pins(self.directory()[key] as int) as nat
        } else {
            0
        }
    }

    /// The pins that are bound to fail: one more pin on a page whose pins cannot be
    /// counted any higher, and a pin of a page that is not resident while every frame
    /// holds a pinned page.
    pub open spec fn refuses(&self, space_id: u32, page_number: u32) -> Option<InnoDBError> {
        if self.directory().contains_key(page_key_of(space_id, page_number)) {
            if self.pins_on(space_id, page_number) < u32::MAX {
                None
            } else {
                Some(InnoDBError::TooManyPins)
            }
        } else if self.all_pinned() {
            Some(InnoDBError::TooManyPins)
        } else {
            None
        }
    }

    /// The first free frame, if there is one.
    pub open spec fn is_first_free(&self, frame: int) -> bool {
        &&& 0 <= frame < LRU_PAGE_COUNT
        &&& !self.resident(frame)
        &&& forall|j: int| 0 <= j < frame ==> self.resident(j)
    }

    /// The frame to evict: the first among the unpinned frames that were touched
    /// least recently.
    pub open spec fn is_victim(&self, frame: int) -> bool {
        &&& 0 <= frame < LRU_PAGE_COUNT
        &&& self.frame_pins(frame) == 0
        &&& forall|j: int|
            0 <= j < LRU_PAGE_COUNT && self.frame_pins(j) == 0 ==> self.touch(frame) <= self.touch(
                j,
            )
        &&& forall|j: int|
            0 <= j < frame && self.frame_pins(j) == 0 ==> self.touch(frame) < self.touch(j)
    }

    /// All frames hold a pinned page.
    pub open spec fn all_pinned(&self) -> bool {
        forall|j: int| 0 <= j < LRU_PAGE_COUNT ==> self.resident(j) && self.frame_pins(j) > 0
    }

    /// The frames agree with those of `other` in everything but, at `frame`, the time
    /// of the last touch.
    pub open spec fn same_frames_but_touch(&self, other: &Self, frame: int) -> bool {
        forall|i: int|
            0 <= i < LRU_PAGE_COUNT ==> {
                &&& #[trigger] self.frame_pins(i) == other.frame_pins(i)
                &&& self.frame_page(i) == other.frame_page(i)
                &&& self.frame_bytes(i) == other.frame_bytes(i)
                &&& i != frame ==> self.touch(i) == other.touch(i)
            }
    }

    /// The bookkeeping of `other` is that of this manager.
    pub closed spec fn same_bookkeeping(&self, other: &Self) -> bool {
        &&& self.backing_store == other.backing_store
        &&& self.page_pin_counter == other.page_pin_counter
        &&& self.frame_pages == other.frame_pages
        &&& self.page_pin_map == other.page_pin_map
        &&& self.lru_list == other.lru_list
    }

    /// Consistency is a matter of the bookkeeping alone.
    proof fn lemma_same_bookkeeping(&self, other: &Self)
        requires
            self.same_bookkeeping(other),
            other.wf(),
        ensures
            self.wf(),
            self.directory() == other.directory(),
            forall|i: int|
                {
                    &&& #[trigger] self.touch(i) == other.touch(i)
                    &&& self.frame_pins(i) == other.frame_pins(i)
                    &&& self.frame_page(i) == other.frame_page(i)
                    &&& self.frame_bytes(i) == other.frame_bytes(i)
                },
            forall|s: u32, p: u32| #[trigger] self.pins_on(s, p) == other.pins_on(s, p),
            forall|s: u32, p: u32| #[trigger] self.bytes_on(s, p) == other.bytes_on(s, p),
    {
        assert(other.sized());
        assert forall|i: int| 0 <= i < LRU_PAGE_COUNT implies #[trigger] self.frame_ok(i) by {
            assert(other.frame_ok(i));
        }
        assert forall|k: u64| #[trigger]
            self.directory().contains_key(k) implies self.entry_consistent(k) by {
            assert(other.entry_consistent(k));
        }
    }

    /// At no time do more frames hold a page than there are frames.
    pub proof fn lemma_resident_bound(&self)
        ensures
            self.resident_frames().finite(),
            self.resident_frames().len() <= LRU_PAGE_COUNT,
    {
        lemma_int_range(0, LRU_PAGE_COUNT as int);
        assert(self.resident_frames().subset_of(set_int_range(0, LRU_PAGE_COUNT as int)));
        lemma_len_subset(self.resident_frames(), set_int_range(0, LRU_PAGE_COUNT as int));
    }

    /// A manager with all frames free.
    pub fn new(source: S) -> (r: Self)
        ensures
            r.wf(),
            r.directory() == Map::<u64, usize>::empty(),
            forall|i: int| !r.resident(i),
    {
        let mut backing_store: Vec<Vec<u8>> = Vec::new();
        let mut page_pin_counter: Vec<u32> = Vec::new();
        let mut frame_pages: Vec<(u32, u32)> = Vec::new();
        let mut lru_list: Vec<u64> = Vec::new();
        let mut i: usize = 0;
        while i < LRU_PAGE_COUNT
            invariant
                i <= LRU_PAGE_COUNT,
                backing_store@.len() == i,
                page_pin_counter@.len() == i,
                frame_pages@.len() == i,
                lru_list@.len() == i,
                forall|k: int| 0 <= k < i ==> page_pin_counter@[k] == 0 && lru_list@[k] == 0,
            decreases LRU_PAGE_COUNT - i,
        {
            backing_store.push(Vec::new());
            page_pin_counter.push(0);
            frame_pages.push((0, 0));
            lru_list.push(0);
            i += 1;
        }
        LRUBufferManager {
            source,
            backing_store,
            page_pin_counter,
            frame_pages,
            page_pin_map: HashMap::new(),
            lru_list,
        }
    }

    /// Finds the frame for a page that is to become resident: the first free frame,
    /// or else the victim, which is evicted. A pinned frame is never chosen; where all
    /// frames are pinned there is none.
    pub fn find_free(&mut self) -> (r: Result<usize, InnoDBError>)
        requires
            old(self).wf(),
        ensures
            final(self).wf(),
            match r {
                Ok(frame) => {
                    &&& frame < LRU_PAGE_COUNT
                    &&& old(self).frame_pins(frame as int) == 0
                    &&& !final(self).resident(frame as int)
                    &&& final(self).same_frames_but_touch(old(self), frame as int)
                    &&& if old(self).resident(frame as int) {
                        &&& forall|j: int| 0 <= j < LRU_PAGE_COUNT ==> old(self).resident(j)
                        &&& old(self).is_victim(frame as int)
                        &&& final(self).directory() == old(self).directory().remove(
                            old(self).frame_key(frame as int),
                        )
                    } else {
                        &&& old(self).is_first_free(frame as int)
                        &&& final(self).directory() == old(self).directory()
                    }
                },
                Err(e) => {
                    &&& e == InnoDBError::TooManyPins
                    &&& old(self).all_pinned()
                    &&& final(self).unchanged_from(old(self))
                },
            },
    {
        let mut best: Option<usize> = None;
        let mut idx: usize = 0;
        while idx < LRU_PAGE_COUNT
            invariant
                self.wf(),
                *self == *old(self),
                idx <= LRU_PAGE_COUNT,
                forall|j: int| 0 <= j < idx ==> self.resident(j),
                match best {
                    Some(b) => {
                        &&& b < idx
                        &&& self.frame_pins(b as int) == 0
                        &&& forall|j: int|
                            0 <= j < idx && self.frame_pins(j) == 0 ==> self.touch(b as int)
                                <= self.touch(j)
                        &&& forall|j: int|
                            0 <= j < b && self.frame_pins(j) == 0 ==> self.touch(b as int)
                                < self.touch(j)
                    },
                    None => forall|j: int| 0 <= j < idx ==> self.frame_pins(j) > 0,
                },
            decreases LRU_PAGE_COUNT - idx,
        {
            let timestamp = self.lru_list[idx];
            if timestamp == 0 {
                assert(self.frame_ok(idx as int));
                return Ok(idx);
            }
            if self.page_pin_counter[idx] == 0 {
                match best {
                    None => {
                        best = Some(idx);
                    },
                    Some(b) => {
                        if timestamp < self.lru_list[b] {
                            best = Some(idx);
                        }
                    },
                }
            }
            idx += 1;
        }
        match best {
            None => Err(InnoDBError::TooManyPins),
            Some(frame) => {
                let (space_id, page_number) = self.frame_pages[frame];
                let key = page_key(space_id, page_number);
                self.page_pin_map.remove(&key);
                self.lru_list[frame] = 0;
                proof {
                    assert(self.sized());
                    assert forall|i: int| 0 <= i < LRU_PAGE_COUNT implies #[trigger] self.frame_ok(
                        i,
                    ) by {
                        assert(old(self).frame_ok(i));
                        assert(old(self).frame_ok(frame as int));
                    }
                    assert forall|k: u64| #[trigger]
                        self.directory().contains_key(k) implies self.entry_consistent(k) by {
                        assert(old(self).entry_consistent(k));
                    }
                }
                Ok(frame)
            },
        }
    }

    /// The frame that holds a page, if it is resident.
    pub fn lookup(&self, space_id: u32, page_number: u32) -> (r: Option<usize>)
        requires
            self.wf(),
        ensures
            match r {
                Some(frame) => {
                    &&& self.directory().contains_key(page_key_of(space_id, page_number))
                    &&& self.directory()[page_key_of(space_id, page_number)] == frame
                    &&& self.resident(frame as int)
                    &&& self.frame_page(frame as int) == (space_id, page_number)
                },
                None => !self.directory().contains_key(page_key_of(space_id, page_number)),
            },
    {
        let key = page_key(space_id, page_number);
        match self.page_pin_map.get(&key) {
            Some(frame) => {
                assert(self.entry_consistent(key));
                Some(*frame)
            },
            None => None,
        }
    }

    /// The number of pins that are held on a page.
    pub fn pin_count_of(&self, space_id: u32, page_number: u32) -> (r: u32)
        requires
            self.wf(),
        ensures
            r == self.pins_on(space_id, page_number),
    {
        match self.lookup(space_id, page_number) {
            Some(frame) => self.page_pin_counter[frame],
            None => 0,
        }
    }

    /// The number of frames that hold a page.
    pub fn resident_count(&self) -> (r: usize)
        requires
            self.wf(),
        ensures
            r == self.resident_frames().len(),
            r <= LRU_PAGE_COUNT,
    {
        let mut count: usize = 0;
        let mut i: usize = 0;
        proof {
            assert(Set::new(|k: int| 0 <= k < 0 && self.resident(k)) =~= Set::<int>::empty());
        }
        while i < LRU_PAGE_COUNT
            invariant
                self.sized(),
                i <= LRU_PAGE_COUNT,
                count <= i,
                Set::new(|k: int| 0 <= k < i && self.resident(k)).finite(),
                count == Set::new(|k: int| 0 <= k < i && self.resident(k)).len(),
            decreases LRU_PAGE_COUNT - i,
        {
            let ghost before = Set::new(|k: int| 0 <= k < i && self.resident(k));
            if self.lru_list[i] != 0 {
                count += 1;
                assert(Set::new(|k: int| 0 <= k < i + 1 && self.resident(k)) =~= before.insert(
                    i as int,
                ));
            } else {
                assert(Set::new(|k: int| 0 <= k < i + 1 && self.resident(k)) =~= before);
            }
            i += 1;
        }
        assert(Set::new(|k: int| 0 <= k < i && self.resident(k)) =~= self.resident_frames());
        count
    }

    /// Pins a page at the time `now`. A resident page gets one more pin and the time as
    /// its last touch. Any other page is read from the source into the frame that
    /// `find_free` gives, and becomes resident with one pin once it has proved to be
    /// the page asked for with a matching CRC-32C checksum.
    pub fn pin_at(&mut self, space_id: u32, page_number: u32, now: u64) -> (r: Result<
        PageGuard,
        InnoDBError,
    >)
        requires
            old(self).wf(),
        ensures
            final(self).wf(),
            r matches Ok(guard) ==> {
                &&& guard.space_id() == space_id
                &&& guard.page_number() == page_number
                &&& final(self).pins_on(space_id, page_number) == old(self).pins_on(
                    space_id,
                    page_number,
                ) + 1
                &&& final(self).directory().contains_key(page_key_of(space_id, page_number))
                &&& final(self).touch(
                    final(self).directory()[page_key_of(space_id, page_number)] as int,
                ) == if now == 0 {
                    1
                } else {
                    now
                }
            },
            r is Err ==> final(self).pins_on(space_id, page_number) == old(self).pins_on(
                space_id,
                page_number,
            ),
            forall|s: u32, p: u32|
                (s != space_id || p != page_number) ==> #[trigger] final(self).pins_on(s, p)
                    == old(self).pins_on(s, p),
            forall|s: u32, p: u32|
                old(self).pins_on(s, p) > 0 ==> #[trigger] final(self).bytes_on(s, p) == old(self).bytes_on(s, p),
            old(self).directory().contains_key(page_key_of(space_id, page_number)) ==> {
                &&& final(self).directory() == old(self).directory()
                &&& if old(self).pins_on(space_id, page_number) < u32::MAX {
                    r is Ok
                } else {
                    r == Err::<PageGuard, InnoDBError>(InnoDBError::TooManyPins)
                }
            },
            !old(self).directory().contains_key(page_key_of(space_id, page_number)) && old(self).all_pinned() ==> {
                &&& r == Err::<PageGuard, InnoDBError>(InnoDBError::TooManyPins)
                &&& final(self).unchanged_from(old(self))
            },
    {
        let stamp: u64 = if now == 0 {
            1
        } else {
            now
        };
        let key = page_key(space_id, page_number);
        if let Some(frame) = self.lookup(space_id, page_number) {
            if self.page_pin_counter[frame] == u32::MAX {
                return Err(InnoDBError::TooManyPins);
            }
            self.page_pin_counter[frame] = self.page_pin_counter[frame] + 1;
            self.lru_list[frame] = stamp;
            proof {
                assert(self.sized());
                assert forall|i: int| 0 <= i < LRU_PAGE_COUNT implies #[trigger] self.frame_ok(
                    i,
                ) by {
                    assert(old(self).frame_ok(i));
                }
                assert forall|k: u64| #[trigger]
                    self.directory().contains_key(k) implies self.entry_consistent(k) by {
                    assert(old(self).entry_consistent(k));
                }
                assert forall|s: u32, p: u32| (s != space_id || p != page_number) implies (
                #[trigger] self.pins_on(s, p)) == old(self).pins_on(s, p) by {
                    let k = page_key_of(s, p);
                    if old(self).directory().contains_key(k) {
                        assert(old(self).entry_consistent(k));
                    }
                }
            }
            return Ok(PageGuard::new(space_id, page_number));
        }
        let ghost before = *self;
        let found = self.find_free();
        proof {
            if let Ok(frame) = found {
                assert(before.frame_ok(frame as int));
            }
            assert forall|s: u32, p: u32| #[trigger] self.pins_on(s, p) == before.pins_on(s, p) by {
                let k = page_key_of(s, p);
                if before.directory().contains_key(k) {
                    assert(before.entry_consistent(k));
                    let i = before.directory()[k] as int;
                    assert(self.frame_pins(i) == before.frame_pins(i));
                }
            }
            assert forall|s: u32, p: u32| before.pins_on(s, p) > 0 implies #[trigger] self.bytes_on(
                s,
                p,
            ) == before.bytes_on(s, p) by {
                let k = page_key_of(s, p);
                assert(before.entry_consistent(k));
                let i = before.directory()[k] as int;
                assert(self.frame_pins(i) == before.frame_pins(i));
            }
        }
        let free_frame = match found {
            Ok(frame) => frame,
            Err(e) => { return Err(e); },
        };
        let ghost evicted = *self;
        let read = self.source.read_page(space_id, page_number);
        proof {
            self.lemma_same_bookkeeping(&evicted);
        }
        let ghost loading = *self;
        let r = self.take_in(free_frame, space_id, page_number, read, stamp);
        proof {
            assert forall|s: u32, p: u32| (s != space_id || p != page_number) implies (
            #[trigger] self.pins_on(s, p)) == loading.pins_on(s, p) by {
                let k = page_key_of(s, p);
                if loading.directory().contains_key(k) {
                    assert(loading.entry_consistent(k));
                    let i = loading.directory()[k] as int;
                    assert(self.frame_pins(i) == loading.frame_pins(i));
                }
            }
            assert forall|s: u32, p: u32| loading.pins_on(s, p) > 0 implies #[trigger] self.bytes_on(
                s,
                p,
            ) == loading.bytes_on(s, p) by {
                let k = page_key_of(s, p);
                assert(loading.entry_consistent(k));
                let i = loading.directory()[k] as int;
                assert(self.frame_pins(i) == loading.frame_pins(i));
            }
        }
        r
    }

    /// The frames and the directory are those of `other`.
    pub open spec fn unchanged_from(&self, other: &Self) -> bool {
        &&& self.directory() == other.directory()
        &&& forall|i: int|
            0 <= i < LRU_PAGE_COUNT ==> {
                &&& #[trigger] self.frame_pins(i) == other.frame_pins(i)
                &&& self.touch(i) == other.touch(i)
                &&& self.frame_page(i) == other.frame_page(i)
                &&& self.frame_bytes(i) == other.frame_bytes(i)
            }
    }

    /// A page has become resident in `frame` with one pin, and nothing else has
    /// changed since `before`.
    pub open spec fn holds_loaded(
        &self,
        before: &Self,
        frame: int,
        space_id: u32,
        page_number: u32,
        bytes: Seq<u8>,
        stamp: u64,
    ) -> bool {
        &&& self.directory() == before.directory().insert(
            page_key_of(space_id, page_number),
            frame as usize,
        )
        &&& self.touch(frame) == stamp
        &&& self.frame_pins(frame) == 1
        &&& self.frame_page(frame) == (space_id, page_number)
        &&& self.frame_bytes(frame) == bytes
        &&& forall|i: int|
            0 <= i < LRU_PAGE_COUNT && i != frame ==> {
                &&& #[trigger] self.frame_pins(i) == before.frame_pins(i)
                &&& self.touch(i) == before.touch(i)
                &&& self.frame_page(i) == before.frame_page(i)
                &&& self.frame_bytes(i) == before.frame_bytes(i)
            }
    }

    /// Takes what the source gave for a page that is not resident into a free frame.
    /// The page becomes resident, with one pin and the time `stamp`, if the source gave
    /// bytes and they are the page that was asked for; else the error is passed on and
    /// nothing changes.
    pub fn take_in(
        &mut self,
        frame: usize,
        space_id: u32,
        page_number: u32,
        read: Result<Vec<u8>, InnoDBError>,
        stamp: u64,
    ) -> (r: Result<PageGuard, InnoDBError>)
        requires
            old(self).wf(),
            frame < LRU_PAGE_COUNT,
            !old(self).resident(frame as int),
            !old(self).directory().contains_key(page_key_of(space_id, page_number)),
            stamp != 0,
        ensures
            final(self).wf(),
            match read {
                Err(e) => r == Err::<PageGuard, InnoDBError>(e) && final(self).unchanged_from(
                    old(self),
                ),
                Ok(bytes) => match page_check_of(bytes@, space_id, page_number) {
                    Err(e) => r == Err::<PageGuard, InnoDBError>(e) && final(self).unchanged_from(
                        old(self),
                    ),
                    Ok(_) => {
                        &&& r is Ok
                        &&& r->Ok_0.space_id() == space_id
                        &&& r->Ok_0.page_number() == page_number
                        &&& final(self).holds_loaded(
                            old(self),
                            frame as int,
                            space_id,
                            page_number,
                            bytes@,
                            stamp,
                        )
                    },
                },
            },
    {
        let bytes = match read {
            Ok(bytes) => bytes,
            Err(e) => { return Err(e); },
        };
        let checked = check_page(bytes.as_slice(), space_id, page_number);
        if let Err(e) = checked {
            return Err(e);
        }
        let key = page_key(space_id, page_number);
        self.backing_store[frame] = bytes;
        self.lru_list[frame] = stamp;
        self.page_pin_counter[frame] = 1;
        self.frame_pages[frame] = (space_id, page_number);
        self.page_pin_map.insert(key, frame);
        proof {
            assert(self.directory() == old(self).directory().insert(key, frame));
            assert(self.sized());
            assert forall|i: int| 0 <= i < LRU_PAGE_COUNT implies #[trigger] self.frame_ok(i) by {
                assert(old(self).frame_ok(i));
            }
            assert forall|k: u64| #[trigger]
                self.directory().contains_key(k) implies self.entry_consistent(k) by {
                if k != key {
                    assert(old(self).entry_consistent(k));
                }
            }
        }
        Ok(PageGuard::new(space_id, page_number))
    }

    /// The bytes of a resident page.
    pub open spec fn bytes_on(&self, space_id: u32, page_number: u32) -> Seq<u8> {
        self.frame_bytes(self.directory()[page_key_of(space_id, page_number)] as int)
    }

    /// Releases one pin on a page.
    pub fn release(&mut self, space_id: u32, page_number: u32)
        requires
            old(self).wf(),
            old(self).pins_on(space_id, page_number) > 0,
        ensures
            final(self).wf(),
            final(self).pins_on(space_id, page_number) == old(self).pins_on(space_id, page_number)
                - 1,
            forall|s: u32, p: u32|
                (s != space_id || p != page_number) ==> #[trigger] final(self).pins_on(s, p)
                    == old(self).pins_on(s, p),
            forall|s: u32, p: u32| #[trigger]
                final(self).bytes_on(s, p) == old(self).bytes_on(s, p),
            final(self).directory() == old(self).directory(),
            final(self).same_frames_but_pins(old(self), space_id, page_number),
    {
        match self.lookup(space_id, page_number) {
            Some(frame) => {
                self.page_pin_counter[frame] = self.page_pin_counter[frame] - 1;
                proof {
                    assert(self.sized());
                    assert forall|i: int| 0 <= i < LRU_PAGE_COUNT implies #[trigger] self.frame_ok(
                        i,
                    ) by {
                        assert(old(self).frame_ok(i));
                    }
                    assert forall|k: u64| #[trigger]
                        self.directory().contains_key(k) implies self.entry_consistent(k) by {
                        assert(old(self).entry_consistent(k));
                    }
                    assert forall|s: u32, p: u32| (s != space_id || p != page_number) implies (
                    #[trigger] self.pins_on(s, p)) == old(self).pins_on(s, p) by {
                        let k = page_key_of(s, p);
                        if old(self).directory().contains_key(k) {
                            assert(old(self).entry_consistent(k));
                        }
                    }
                }
            },
            None => {},
        }
    }

    /// The frames agree with those of `other` in everything but the pins of the frame
    /// that holds the page.
    pub open spec fn same_frames_but_pins(&self, other: &Self, space_id: u32, page_number: u32) -> bool {
        forall|i: int|
            0 <= i < LRU_PAGE_COUNT ==> {
                &&& #[trigger] self.touch(i) == other.touch(i)
                &&& self.frame_page(i) == other.frame_page(i)
                &&& self.frame_bytes(i) == other.frame_bytes(i)
                &&& self.frame_page(i) != (space_id, page_number) ==> self.frame_pins(i)
                    == other.frame_pins(i)
            }
    }

    /// The view of a resident page.
    pub fn resident_page<'a>(&'a self, space_id: u32, page_number: u32) -> (r: Option<Page<'a>>)
        requires
            self.wf(),
        ensures
            match r {
                Some(page) => {
                    &&& self.directory().contains_key(page_key_of(space_id, page_number))
                    &&& page.wf()
                    &&& page.raw_data@ == self.bytes_on(space_id, page_number)
                    &&& page.header.space_id == space_id
                    &&& page.header.offset == page_number
                    &&& page.header.new_checksum == crc32_checksum_of(page.raw_data@)
                },
                None => !self.directory().contains_key(page_key_of(space_id, page_number)),
            },
    {
        match self.lookup(space_id, page_number) {
            Some(frame) => {
                assert(self.frame_ok(frame as int));
                match Page::from_bytes(self.backing_store[frame].as_slice()) {
                    Ok(page) => Some(page),
                    Err(_) => None,
                }
            },
            None => None,
        }
    }
}

/// Holds bytes that a source returned against the page that was asked for: they are
/// one page, not the all-zero page of a hole in the file, they carry the space id and
/// the page number, and the stored checksum is the CRC-32C checksum.
pub open spec fn page_check_of(bytes: Seq<u8>, space_id: u32, page_number: u32) -> Result<
    (),
    InnoDBError,
> {
    let header = FILHeader::decode(bytes);
    if bytes.len() != FIL_PAGE_SIZE {
        Err(InnoDBError::InvalidLength)
    } else if header.space_id == 0 && header.offset == 0 {
        Err(InnoDBError::PageNotFound)
    } else if header.space_id != space_id || header.offset != page_number {
        Err(InnoDBError::InvalidPage)
    } else if header.new_checksum != crc32_checksum_of(bytes) {
        Err(InnoDBError::InvalidChecksum)
    } else {
        Ok(())
    }
}

/// Holds bytes that a source returned against the page that was asked for.
pub fn check_page(bytes: &[u8], space_id: u32, page_number: u32) -> (r: Result<(), InnoDBError>)
    ensures
        r == page_check_of(bytes@, space_id, page_number),
{
    let page = match Page::from_bytes(bytes) {
        Ok(page) => page,
        Err(e) => { return Err(e); },
    };
    if page.header.space_id == 0 && page.header.offset == 0 {
        return Err(InnoDBError::PageNotFound);
    }
    if page.header.space_id != space_id || page.header.offset != page_number {
        return Err(InnoDBError::InvalidPage);
    }
    if page.header.new_checksum != page.crc32_checksum() {
        return Err(InnoDBError::InvalidChecksum);
    }
    Ok(())
}

impl<S: PageSource> BufferManager for LRUBufferManager<S> {
    open spec fn inv(&self) -> bool {
        self.wf()
    }

    open spec fn pin_count(&self, space_id: u32, page_number: u32) -> nat {
        self.pins_on(space_id, page_number)
    }

    open spec fn page_bytes(&self, space_id: u32, page_number: u32) -> Seq<u8> {
        self.bytes_on(space_id, page_number)
    }

    open spec fn refusal(&self, space_id: u32, page_number: u32) -> Option<InnoDBError> {
        self.refuses(space_id, page_number)
    }

    /// Pins a page at the time that the system clock gives. A resident page is pinned
    /// once more unless its pins cannot be counted any higher, and the directory stays
    /// as it is; a page that is not resident cannot be pinned while every frame holds a
    /// pinned page. A page that was pinned is resident, and its frame was touched.
    fn pin(&mut self, space_id: u32, page_number: u32) -> (r: Result<PageGuard, InnoDBError>)
        ensures
            old(self).directory().contains_key(page_key_of(space_id, page_number)) ==> {
                &&& final(self).directory() == old(self).directory()
                &&& if old(self).pins_on(space_id, page_number) < u32::MAX {
                    r is Ok
                } else {
                    r == Err::<PageGuard, InnoDBError>(InnoDBError::TooManyPins)
                }
            },
            !old(self).directory().contains_key(page_key_of(space_id, page_number)) && old(self).all_pinned() ==> {
                &&& r == Err::<PageGuard, InnoDBError>(InnoDBError::TooManyPins)
                &&& final(self).unchanged_from(old(self))
            },
            r is Ok ==> {
                &&& final(self).directory().contains_key(page_key_of(space_id, page_number))
                &&& final(self).resident(
                    final(self).directory()[page_key_of(space_id, page_number)] as int,
                )
            },
    {
        let now = clock_nanos();
        let r = self.pin_at(space_id, page_number, now);
        proof {
            if r is Ok {
                assert(self.entry_consistent(page_key_of(space_id, page_number)));
            }
        }
        r
    }

    /// Releases one pin: the pin count of the frame of the page goes down by one, and
    /// nothing else changes.
    fn unpin(&mut self, guard: PageGuard)
        ensures
            final(self).directory() == old(self).directory(),
            final(self).same_frames_but_pins(old(self), guard.space_id(), guard.page_number()),
    {
        self.release(guard.space_id(), guard.page_number())
    }

    fn page<'a>(&'a self, guard: &PageGuard) -> (r: Page<'a>) {
        match self.resident_page(guard.space_id(), guard.page_number()) {
            Some(page) => page,
            None => vstd::pervasive::unreached(),
        }
    }
}

} // verus!
