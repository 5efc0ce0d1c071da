//! A buffer manager that keeps every page it has read. Nothing is ever evicted, so a
//! pin costs nothing at run time: the pins are counted in the proof alone.
use std::collections::HashMap;
use vstd::prelude::*;

use crate::innodb::buffer_manager::lru::{page_key, page_key_of};
use crate::innodb::buffer_manager::{BufferManager, PageGuard, PageSource};
use crate::innodb::page::{Page, FIL_PAGE_SIZE};
use crate::innodb::InnoDBError;

verus! {

broadcast use vstd::std_specs::hash::group_hash_axioms;

/// What the manager has read, and the pins that are held.
pub struct SimpleBufferManager<S: PageSource> {
    source: S,
    page_cache: HashMap<u64, Vec<u8>>,
    pins: Ghost<Map<u64, nat>>,
}

impl<S: PageSource> SimpleBufferManager<S> {
    /// The pages that were read so far, by key.
    pub closed spec fn cache(&self) -> Map<u64, Vec<u8>> {
        self.page_cache@
    }

    /// The pins that are held, by key.
    pub closed spec fn held(&self) -> Map<u64, nat> {
        self.pins@
    }

    /// Every cached page has the size of a page, and pins are held on cached pages
    /// only.
    pub open spec fn wf(&self) -> bool {
        &&& forall|k: u64| #[trigger]
            self.cache().contains_key(k) ==> self.cache()[k]@.len() == FIL_PAGE_SIZE
        &&& forall|k: u64| #[trigger]
            self.held().contains_key(k) ==> self.cache().contains_key(k)
    }

    /// The number of pins that are held on a page.
    pub open spec fn pins_on(&self, space_id: u32, page_number: u32) -> nat {
        let key = page_key_of(space_id, page_number);
        if self.held().contains_key(key) {
            self.held()[key]
        } else {
            0
        }
    }

    /// The bytes of a cached page.
    pub open spec fn bytes_on(&self, space_id: u32, page_number: u32) -> Seq<u8> {
        self.cache()[page_key_of(space_id, page_number)]@
    }

    /// A manager that has read nothing yet.
    pub fn new(source: S) -> (r: Self)
        ensures
            r.wf(),
            r.cache() == Map::<u64, Vec<u8>>::empty(),
            r.held() == Map::<u64, nat>::empty(),
    {
        SimpleBufferManager { source, page_cache: HashMap::new(), pins: Ghost(Map::empty()) }
    }

    /// Makes sure that a page is cached: one that is not is read from the source, and
    /// kept if it has the size of a page.
    pub fn get_page(&mut self, space_id: u32, page_number: u32) -> (r: Result<(), InnoDBError>)
        requires
            old(self).wf(),
        ensures
            final(self).wf(),
            final(self).held() == old(self).held(),
            r is Ok ==> final(self).cache().contains_key(page_key_of(space_id, page_number)),
            forall|k: u64| #[trigger]
                old(self).cache().contains_key(k) ==> final(self).cache().contains_key(k)
                    && final(self).cache()[k] == old(self).cache()[k],
            old(self).cache().contains_key(page_key_of(space_id, page_number)) ==> r is Ok
                && final(self).cache() == old(self).cache(),
    {
        let key = page_key(space_id, page_number);
        if self.page_cache.contains_key(&key) {
            return Ok(());
        }
        let read = self.source.read_page(space_id, page_number);
        assert(self.cache() == old(self).cache());
        assert(self.held() == old(self).held());
        self.keep(space_id, page_number, read)
    }

    /// Takes what the source gave for a page that is not cached: bytes of the size of
    /// a page are kept, an error is passed on, and anything else is rejected.
    pub fn keep(&mut self, space_id: u32, page_number: u32, read: Result<Vec<u8>, InnoDBError>) -> (r:
        Result<(), InnoDBError>)
        requires
            old(self).wf(),
            !old(self).cache().contains_key(page_key_of(space_id, page_number)),
        ensures
            final(self).wf(),
            final(self).held() == old(self).held(),
            match read {
                Err(e) => r == Err::<(), InnoDBError>(e) && final(self).cache() == old(self).cache(),
                Ok(bytes) => if bytes@.len() == FIL_PAGE_SIZE {
                    r == Ok::<(), InnoDBError>(()) && final(self).cache() == old(self).cache().insert(
                        page_key_of(space_id, page_number),
                        bytes,
                    )
                } else {
                    r == Err::<(), InnoDBError>(InnoDBError::InvalidLength) && final(self).cache()
                        == old(self).cache()
                },
            },
    {
        let bytes = match read {
            Ok(bytes) => bytes,
            Err(e) => { return Err(e); },
        };
        if bytes.len() != FIL_PAGE_SIZE {
            return Err(InnoDBError::InvalidLength);
        }
        let key = page_key(space_id, page_number);
        self.page_cache.insert(key, bytes);
        assert(self.cache() == old(self).cache().insert(key, bytes));
        assert(self.held() == old(self).held());
        Ok(())
    }
}

impl<S: PageSource> BufferManager for SimpleBufferManager<S> {
    open spec fn inv(&self) -> bool {
        self.wf()
    }

    open spec fn pin_count(&self, space_id: u32, page_number: u32) -> nat {
        self.pins_on(space_id, page_number)
    }

    open spec fn page_bytes(&self, space_id: u32, page_number: u32) -> Seq<u8> {
        self.bytes_on(space_id, page_number)
    }

    /// No pin is bound to fail: what a pin of a page that is not cached gives is for
    /// the source to decide.
    open spec fn refusal(&self, space_id: u32, page_number: u32) -> Option<InnoDBError> {
        None
    }

    fn pin(&mut self, space_id: u32, page_number: u32) -> (r: Result<PageGuard, InnoDBError>)
        ensures
            old(self).cache().contains_key(page_key_of(space_id, page_number)) ==> r is Ok,
            forall|k: u64| #[trigger]
                old(self).cache().contains_key(k) ==> final(self).cache().contains_key(k)
                    && final(self).cache()[k] == old(self).cache()[k],
    {
        if let Err(e) = self.get_page(space_id, page_number) {
            return Err(e);
        }
        proof {
            let key = page_key_of(space_id, page_number);
            let count = self.pins_on(space_id, page_number);
            self.pins = Ghost(self.pins@.insert(key, count + 1));
        }
        Ok(PageGuard::new(space_id, page_number))
    }

    fn unpin(&mut self, guard: PageGuard) {
        proof {
            let key = page_key_of(guard.space_id(), guard.page_number());
            let count = self.pins_on(guard.space_id(), guard.page_number());
            self.pins = Ghost(self.pins@.insert(key, (count - 1) as nat));
        }
    }

    fn page<'a>(&'a self, guard: &PageGuard) -> (r: Page<'a>) {
        let key = page_key(guard.space_id(), guard.page_number());
        match self.page_cache.get(&key) {
            Some(bytes) => match Page::from_bytes(bytes.as_slice()) {
                Ok(page) => page,
                Err(_) => vstd::pervasive::unreached(),
            },
            None => vstd::pervasive::unreached(),
        }
    }
}

} // verus!
