//! Buffer managers hand out pages under a pin: while a page is pinned its bytes stay
//! where they are and as they are.
pub mod lru;
pub mod simple;

use vstd::prelude::*;

use crate::innodb::page::{Page, FIL_PAGE_SIZE};
use crate::innodb::InnoDBError;

verus! {

/// Where the bytes of pages come from: a tablespace on disk, or anything that stands
/// for one. Nothing is taken for granted about what a source returns.
pub trait PageSource {
    /// The bytes of one page of a tablespace.
    fn read_page(&mut self, space_id: u32, page_number: u32) -> Result<Vec<u8>, InnoDBError>;
}

/// The name of the file that holds the pages of a tablespace: the space id in eight
/// digits, and the ending `.pages`.
pub open spec fn tablespace_file_name_of(space_id: u32) -> Seq<char> {
    crate::innodb::table::text::zero_padded(space_id as nat, 8) + ".pages"@
}

/// The name of the file that holds the pages of a tablespace.
pub fn tablespace_file_name(space_id: u32) -> (r: String)
    ensures
        r@ == tablespace_file_name_of(space_id),
{
    let mut name = String::new();
    crate::innodb::table::text::append_zero_padded(&mut name, space_id as u64, 8);
    name.append(".pages");
    assert(name@ =~= tablespace_file_name_of(space_id));
    name
}

/// The offset of a page in the file of its tablespace.
pub fn page_file_offset(page_number: u32) -> (r: u64)
    ensures
        r == page_number * FIL_PAGE_SIZE,
{
    (page_number as u64) * 16384
}

/// The token of one pin. It names the page that the pin is on, and goes back to the
/// buffer manager when the pin is released.
#[derive(Debug)]
pub struct PageGuard {
    space_id: u32,
    page_number: u32,
}

impl PageGuard {
    /// The space id of the page that the pin is on.
    pub closed spec fn spec_space_id(&self) -> u32 {
        self.space_id
    }

    /// The page number of the page that the pin is on.
    pub closed spec fn spec_page_number(&self) -> u32 {
        self.page_number
    }

    /// The token of a pin on a page.
    pub fn new(space_id: u32, page_number: u32) -> (r: Self)
        ensures
            r.space_id() == space_id,
            r.page_number() == page_number,
    {
        PageGuard { space_id, page_number }
    }

    /// The space id of the page that the pin is on.
    #[verifier::when_used_as_spec(spec_space_id)]
    pub fn space_id(&self) -> (r: u32)
        ensures
            r == self.space_id(),
    {
        self.space_id
    }

    /// The page number of the page that the pin is on.
    #[verifier::when_used_as_spec(spec_page_number)]
    pub fn page_number(&self) -> (r: u32)
        ensures
            r == self.page_number(),
    {
        self.page_number
    }
}

/// What every buffer manager offers: pages under a pin.
pub trait BufferManager {
    /// The bookkeeping of the manager is consistent.
    spec fn inv(&self) -> bool;

    /// The number of pins that are held on a page.
    spec fn pin_count(&self, space_id: u32, page_number: u32) -> nat;

    /// The bytes of a page on which a pin is held.
    spec fn page_bytes(&self, space_id: u32, page_number: u32) -> Seq<u8>;

    /// The error with which a pin of a page is bound to fail as things stand, where
    /// it is bound to fail.
    spec fn refusal(&self, space_id: u32, page_number: u32) -> Option<InnoDBError>;

    /// Pins a page. Success raises the pin count of the page by one; failure leaves
    /// all counts as they were. Pages that were pinned before keep their bytes. A pin
    /// that is bound to fail fails with the error of its refusal.
    fn pin(&mut self, space_id: u32, page_number: u32) -> (r: Result<PageGuard, InnoDBError>)
        requires
            old(self).inv(),
        ensures
            final(self).inv(),
            r matches Ok(guard) ==> {
                &&& guard.space_id() == space_id
                &&& guard.page_number() == page_number
                &&& final(self).pin_count(space_id, page_number) == old(self).pin_count(
                    space_id,
                    page_number,
                ) + 1
            },
            r is Err ==> final(self).pin_count(space_id, page_number) == old(self).pin_count(
                space_id,
                page_number,
            ),
            old(self).refusal(space_id, page_number) matches Some(e) ==> r == Err::<
                PageGuard,
                InnoDBError,
            >(e),
            forall|s: u32, p: u32|
                (s != space_id || p != page_number) ==> #[trigger] final(self).pin_count(s, p)
                    == old(self).pin_count(s, p),
            forall|s: u32, p: u32|
                old(self).pin_count(s, p) > 0 ==> #[trigger] final(self).page_bytes(s, p) == old(self).page_bytes(s, p),
    ;

    /// Releases one pin. The page must be pinned.
    fn unpin(&mut self, guard: PageGuard)
        requires
            old(self).inv(),
            old(self).pin_count(guard.space_id(), guard.page_number()) > 0,
        ensures
            final(self).inv(),
            final(self).pin_count(guard.space_id(), guard.page_number()) == old(self).pin_count(
                guard.space_id(),
                guard.page_number(),
            ) - 1,
            forall|s: u32, p: u32|
                (s != guard.space_id() || p != guard.page_number()) ==> #[trigger] final(self).pin_count(s, p) == old(self).pin_count(s, p),
            forall|s: u32, p: u32|
                old(self).pin_count(s, p) > 0 ==> #[trigger] final(self).page_bytes(s, p) == old(self).page_bytes(s, p),
    ;

    /// The pinned page that a guard stands for.
    fn page<'a>(&'a self, guard: &PageGuard) -> (r: Page<'a>)
        requires
            self.inv(),
            self.pin_count(guard.space_id(), guard.page_number()) > 0,
        ensures
            r.wf(),
            r.raw_data@ == self.page_bytes(guard.space_id(), guard.page_number()),
    ;
}

/// The buffer manager of callers that never follow a reference out of a record: it
/// has no pages, and every pin fails.
pub struct DummyBufferMangaer;

impl BufferManager for DummyBufferMangaer {
    open spec fn inv(&self) -> bool {
        true
    }

    open spec fn pin_count(&self, space_id: u32, page_number: u32) -> nat {
        0
    }

    open spec fn page_bytes(&self, space_id: u32, page_number: u32) -> Seq<u8> {
        Seq::empty()
    }

    open spec fn refusal(&self, space_id: u32, page_number: u32) -> Option<InnoDBError> {
        Some(InnoDBError::PinUnavailable)
    }

    fn pin(&mut self, space_id: u32, page_number: u32) -> (r: Result<PageGuard, InnoDBError>)
        ensures
            r == Err::<PageGuard, InnoDBError>(InnoDBError::PinUnavailable),
    {
        Err(InnoDBError::PinUnavailable)
    }

    fn unpin(&mut self, guard: PageGuard) {
    }

    fn page<'a>(&'a self, guard: &PageGuard) -> (r: Page<'a>) {
        vstd::pervasive::unreached()
    }
}

} // verus!
