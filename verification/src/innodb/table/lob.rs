//! Values that lie outside of their record: how their bytes are gathered from the
//! pages of the value through a buffer manager.
//!
//! The first page of a value is pinned for the whole of the gathering, so its bytes are
//! known. Every other page is pinned when it is needed, and what such a pin delivers,
//! the bytes of the page or an error, is for the buffer manager to decide. The model
//! below says what the gathering gives for every sequence of deliveries.
use vstd::prelude::*;

use crate::innodb::buffer_manager::{BufferManager, PageGuard};
use crate::innodb::file_list::FileAddress;
use crate::innodb::page::lob::data_page::{lob_data_of, LobData};
use crate::innodb::page::lob::{
    lob_first_data_of, read_outcome, LobFirst, LobFirstHeader, LobIndexEntry,
};
use crate::innodb::page::{body_of, FILHeader, PageType, FIL_PAGE_SIZE};
use crate::innodb::table::blob_header::ExternReference;
use crate::innodb::InnoDBError;

verus! {

/// Nothing has changed for the holders of pins: the counts are what they were, and
/// so are the bytes of the pages that were pinned.
pub open spec fn pins_kept<B: BufferManager>(before: &B, after: &B) -> bool {
    &&& forall|s: u32, p: u32| #[trigger] after.pin_count(s, p) == before.pin_count(s, p)
    &&& forall|s: u32, p: u32|
        before.pin_count(s, p) > 0 ==> #[trigger] after.page_bytes(s, p) == before.page_bytes(s, p)
}

/// What the pin of a page delivered, as far as the buffer manager shows it: bytes
/// that were delivered are those that the manager holds for the page afterwards, and
/// a pin that was bound to fail gave the error of its refusal.
pub open spec fn delivered_by<B: BufferManager>(
    before: &B,
    after: &B,
    space_id: u32,
    page_number: u32,
    delivery: Result<Seq<u8>, InnoDBError>,
) -> bool {
    &&& delivery matches Ok(page) ==> page == after.page_bytes(space_id, page_number)
    &&& before.refusal(space_id, page_number) matches Some(e) ==> delivery == Err::<
        Seq<u8>,
        InnoDBError,
    >(e)
}

/// The number of pins that reading the index entry at `node` takes: none for an entry
/// in the first page, and none for an address at which no entry fits its page.
pub open spec fn entry_pins(first_page: u32, node: FileAddress) -> nat {
    if node.offset + 60 > FIL_PAGE_SIZE || node.page_number == first_page {
        0
    } else {
        1
    }
}

/// The index entry at `node`, given the bytes of the first page and what the pin of
/// any other page delivered.
pub open spec fn entry_outcome(
    first_bytes: Seq<u8>,
    first_page: u32,
    node: FileAddress,
    deliveries: Seq<Result<Seq<u8>, InnoDBError>>,
) -> Result<LobIndexEntry, InnoDBError> {
    if node.offset + 60 > FIL_PAGE_SIZE {
        Err(InnoDBError::InvalidPage)
    } else if node.page_number == first_page {
        Ok(LobIndexEntry::decode(first_bytes, node.offset as int))
    } else {
        match deliveries[0] {
            Ok(page) => Ok(LobIndexEntry::decode(page, node.offset as int)),
            Err(e) => Err(e),
        }
    }
}

/// The number of pins that copying the data of a page takes: none for the first page.
pub open spec fn chunk_pins(first_page: u32, page_number: u32) -> nat {
    if page_number == first_page {
        0
    } else {
        1
    }
}

/// What copying the data of a first page to `dst` gives: the bytes of `dst` afterwards
/// and the number of bytes copied.
pub open spec fn first_page_chunk(page: Seq<u8>, dst: Seq<u8>) -> Result<(Seq<u8>, int), InnoDBError> {
    let actual = FILHeader::decode(page).page_type;
    if actual != PageType::LobFirst {
        Err(InnoDBError::InvalidPageType { expected: PageType::LobFirst, actual })
    } else {
        match read_outcome(lob_first_data_of(page), 0, dst) {
            Some(copied) => Ok(copied),
            None => Err(InnoDBError::InvalidLength),
        }
    }
}

/// What copying the data of a data page to `dst` gives.
pub open spec fn data_page_chunk(page: Seq<u8>, dst: Seq<u8>) -> Result<(Seq<u8>, int), InnoDBError> {
    let actual = FILHeader::decode(page).page_type;
    if actual != PageType::LobData {
        Err(InnoDBError::InvalidPageType { expected: PageType::LobData, actual })
    } else {
        match read_outcome(lob_data_of(page), 0, dst) {
            Some(copied) => Ok(copied),
            None => Err(InnoDBError::InvalidLength),
        }
    }
}

/// What copying the data of the page that an index entry names gives: the page of
/// the number of the first page is the first page, any other is a data page, which
/// must be pinned.
pub open spec fn chunk_outcome(
    first_bytes: Seq<u8>,
    first_page: u32,
    page_number: u32,
    dst: Seq<u8>,
    deliveries: Seq<Result<Seq<u8>, InnoDBError>>,
) -> Result<(Seq<u8>, int), InnoDBError> {
    if page_number == first_page {
        first_page_chunk(first_bytes, dst)
    } else {
        match deliveries[0] {
            Ok(page) => data_page_chunk(page, dst),
            Err(e) => Err(e),
        }
    }
}

/// What gathering gives from the index entry at `node` on, with `filled` bytes of
/// `out` gathered already: it follows the entries until the end of the list or until
/// `out` is full, copies the data of the page of each entry behind what is there, and
/// fails if the list ends before `out` is full.
#[verifier::opaque]
pub open spec fn gather_from(
    first_bytes: Seq<u8>,
    first_page: u32,
    node: FileAddress,
    out: Seq<u8>,
    filled: nat,
    deliveries: Seq<Result<Seq<u8>, InnoDBError>>,
) -> Result<Seq<u8>, InnoDBError>
    decreases out.len() - filled,
{
    if node.spec_is_null() || filled >= out.len() {
        if filled < out.len() {
            Err(InnoDBError::ReadIncomplete)
        } else {
            Ok(out)
        }
    } else {
        let k = entry_pins(first_page, node);
        match entry_outcome(first_bytes, first_page, node, deliveries.take(k as int)) {
            Err(e) => Err(e),
            Ok(entry) => {
                let j = chunk_pins(first_page, entry.page_number);
                match chunk_outcome(
                    first_bytes,
                    first_page,
                    entry.page_number,
                    out.subrange(filled as int, out.len() as int),
                    deliveries.subrange(k as int, (k + j) as int),
                ) {
                    Err(e) => Err(e),
                    Ok((bytes, n)) => gather_from(
                        first_bytes,
                        first_page,
                        entry.file_list_node.next,
                        out.subrange(0, filled as int) + bytes,
                        (filled + n) as nat,
                        deliveries.skip((k + j) as int),
                    ),
                }
            },
        }
    }
}

/// `count` zero bytes.
pub open spec fn zero_bytes(count: nat) -> Seq<u8> {
    Seq::new(count, |i: int| 0u8)
}

/// The `total` bytes of the value whose first page has the bytes `first_bytes` and is
/// pinned as page `first_page`: the page must carry that number and be a first page,
/// and the bytes are gathered from the head of its index list on.
pub open spec fn lob_value(
    first_bytes: Seq<u8>,
    first_page: u32,
    total: nat,
    deliveries: Seq<Result<Seq<u8>, InnoDBError>>,
) -> Result<Seq<u8>, InnoDBError> {
    let header = FILHeader::decode(first_bytes);
    if header.offset != first_page {
        Err(InnoDBError::InvalidPage)
    } else if header.page_type != PageType::LobFirst {
        Err(
            InnoDBError::InvalidPageType {
                expected: PageType::LobFirst,
                actual: header.page_type,
            },
        )
    } else {
        gather_from(
            first_bytes,
            first_page,
            LobFirstHeader::decode(body_of(first_bytes)).index_list_head.first_node,
            zero_bytes(total),
            0,
            deliveries,
        )
    }
}

/// The bytes of the value that a reference stands for, given what the pin of its
/// first page delivered and what the pins after it delivered.
pub open spec fn extern_bytes(
    reference: ExternReference,
    first: Result<Seq<u8>, InnoDBError>,
    deliveries: Seq<Result<Seq<u8>, InnoDBError>>,
) -> Result<Seq<u8>, InnoDBError> {
    if reference.length > usize::MAX {
        Err(InnoDBError::InvalidLength)
    } else {
        match first {
            Err(e) => Err(e),
            Ok(first_bytes) => lob_value(
                first_bytes,
                reference.page_number,
                reference.length as nat,
                deliveries,
            ),
        }
    }
}

/// Whether bytes that were gathered are what the model says.
pub open spec fn gathered(r: Result<Vec<u8>, InnoDBError>, model: Result<Seq<u8>, InnoDBError>) -> bool {
    match model {
        Ok(bytes) => r is Ok && r->Ok_0@ == bytes,
        Err(e) => r == Err::<Vec<u8>, InnoDBError>(e),
    }
}

/// Gathering fills the buffer it was given: what comes out has its length.
pub proof fn lemma_gather_length(
    first_bytes: Seq<u8>,
    first_page: u32,
    node: FileAddress,
    out: Seq<u8>,
    filled: nat,
    deliveries: Seq<Result<Seq<u8>, InnoDBError>>,
)
    ensures
        gather_from(first_bytes, first_page, node, out, filled, deliveries) matches Ok(bytes)
            ==> bytes.len() == out.len(),
    decreases out.len() - filled,
{
    reveal(gather_from);
    if !(node.spec_is_null() || filled >= out.len()) {
        let k = entry_pins(first_page, node);
        if let Ok(entry) = entry_outcome(first_bytes, first_page, node, deliveries.take(k as int)) {
            let j = chunk_pins(first_page, entry.page_number);
            if let Ok((bytes, n)) = chunk_outcome(
                first_bytes,
                first_page,
                entry.page_number,
                out.subrange(filled as int, out.len() as int),
                deliveries.subrange(k as int, (k + j) as int),
            ) {
                lemma_gather_length(
                    first_bytes,
                    first_page,
                    entry.file_list_node.next,
                    out.subrange(0, filled as int) + bytes,
                    (filled + n) as nat,
                    deliveries.skip((k + j) as int),
                );
            }
        }
    }
}

/// The bytes of a value are as many as its reference says.
pub proof fn lemma_extern_bytes_length(
    reference: ExternReference,
    first: Result<Seq<u8>, InnoDBError>,
    deliveries: Seq<Result<Seq<u8>, InnoDBError>>,
)
    ensures
        extern_bytes(reference, first, deliveries) matches Ok(bytes) ==> bytes.len()
            == reference.length,
{
    if let Ok(first_bytes) = first {
        lemma_gather_length(
            first_bytes,
            reference.page_number,
            LobFirstHeader::decode(body_of(first_bytes)).index_list_head.first_node,
            zero_bytes(reference.length as nat),
            0,
            deliveries,
        );
    }
}

/// One round of the gathering: with the entry read and the data of its page copied,
/// the gathering goes on from the next entry with what is left of the deliveries.
pub proof fn lemma_gather_step(
    first_bytes: Seq<u8>,
    first_page: u32,
    node: FileAddress,
    out: Seq<u8>,
    filled: nat,
    for_entry: Seq<Result<Seq<u8>, InnoDBError>>,
    for_chunk: Seq<Result<Seq<u8>, InnoDBError>>,
    rest: Seq<Result<Seq<u8>, InnoDBError>>,
)
    requires
        !node.spec_is_null(),
        filled < out.len(),
        for_entry.len() == entry_pins(first_page, node),
        entry_outcome(first_bytes, first_page, node, for_entry) is Ok,
        for_chunk.len() == chunk_pins(
            first_page,
            entry_outcome(first_bytes, first_page, node, for_entry)->Ok_0.page_number,
        ),
    ensures
        gather_from(first_bytes, first_page, node, out, filled, for_entry + for_chunk + rest) == {
            let entry = entry_outcome(first_bytes, first_page, node, for_entry)->Ok_0;
            match chunk_outcome(
                first_bytes,
                first_page,
                entry.page_number,
                out.subrange(filled as int, out.len() as int),
                for_chunk,
            ) {
                Err(e) => Err(e),
                Ok((bytes, n)) => gather_from(
                    first_bytes,
                    first_page,
                    entry.file_list_node.next,
                    out.subrange(0, filled as int) + bytes,
                    (filled + n) as nat,
                    rest,
                ),
            }
        },
{
    reveal(gather_from);
    let all = for_entry + for_chunk + rest;
    let k = for_entry.len();
    let j = for_chunk.len();
    assert(all.take(k as int) =~= for_entry);
    assert(all.subrange(k as int, (k + j) as int) =~= for_chunk);
    assert(all.skip((k + j) as int) =~= rest);
}

/// A round of the gathering that fails at its entry fails the gathering.
pub proof fn lemma_gather_entry_fails(
    first_bytes: Seq<u8>,
    first_page: u32,
    node: FileAddress,
    out: Seq<u8>,
    filled: nat,
    for_entry: Seq<Result<Seq<u8>, InnoDBError>>,
)
    requires
        !node.spec_is_null(),
        filled < out.len(),
        for_entry.len() == entry_pins(first_page, node),
        entry_outcome(first_bytes, first_page, node, for_entry) is Err,
    ensures
        gather_from(first_bytes, first_page, node, out, filled, for_entry) == Err::<
            Seq<u8>,
            InnoDBError,
        >(entry_outcome(first_bytes, first_page, node, for_entry)->Err_0),
{
    reveal(gather_from);
    assert(for_entry.take(for_entry.len() as int) =~= for_entry);
}

/// The gathering has come to `node` with `filled` bytes of `out` gathered, having used
/// the deliveries `done`: whatever is delivered from here on, the whole gathering gives
/// what the gathering from here gives.
#[verifier::opaque]
pub open spec fn follows(
    first_bytes: Seq<u8>,
    first_page: u32,
    head: FileAddress,
    total: nat,
    done: Seq<Result<Seq<u8>, InnoDBError>>,
    node: FileAddress,
    out: Seq<u8>,
    filled: nat,
) -> bool {
    forall|rest: Seq<Result<Seq<u8>, InnoDBError>>|
        gather_from(first_bytes, first_page, head, zero_bytes(total), 0, done + rest)
            == #[trigger] gather_from(first_bytes, first_page, node, out, filled, rest)
}

/// The gathering starts at the head of the list with nothing gathered.
pub proof fn lemma_follows_start(first_bytes: Seq<u8>, first_page: u32, head: FileAddress, total: nat)
    ensures
        follows(
            first_bytes,
            first_page,
            head,
            total,
            Seq::empty(),
            head,
            zero_bytes(total),
            0,
        ),
{
    reveal(follows);
    assert forall|rest: Seq<Result<Seq<u8>, InnoDBError>>|
        gather_from(
            first_bytes,
            first_page,
            head,
            zero_bytes(total),
            0,
            Seq::<Result<Seq<u8>, InnoDBError>>::empty() + rest,
        ) == #[trigger] gather_from(first_bytes, first_page, head, zero_bytes(total), 0, rest) by {
        assert(Seq::<Result<Seq<u8>, InnoDBError>>::empty() + rest =~= rest);
    }
}

/// The gathering ends where the list ends or the buffer is full.
pub proof fn lemma_follows_end(
    first_bytes: Seq<u8>,
    first_page: u32,
    head: FileAddress,
    total: nat,
    done: Seq<Result<Seq<u8>, InnoDBError>>,
    node: FileAddress,
    out: Seq<u8>,
    filled: nat,
)
    requires
        follows(first_bytes, first_page, head, total, done, node, out, filled),
        node.spec_is_null() || filled >= out.len(),
    ensures
        gather_from(first_bytes, first_page, head, zero_bytes(total), 0, done) == if filled
            < out.len() {
            Err::<Seq<u8>, InnoDBError>(InnoDBError::ReadIncomplete)
        } else {
            Ok::<Seq<u8>, InnoDBError>(out)
        },
{
    reveal(follows);
    reveal(gather_from);
    let none = Seq::<Result<Seq<u8>, InnoDBError>>::empty();
    assert(done + none =~= done);
    assert(gather_from(first_bytes, first_page, head, zero_bytes(total), 0, done + none)
        == gather_from(first_bytes, first_page, node, out, filled, none));
}

/// A round that fails at its entry fails the gathering.
pub proof fn lemma_follows_entry_fails(
    first_bytes: Seq<u8>,
    first_page: u32,
    head: FileAddress,
    total: nat,
    done: Seq<Result<Seq<u8>, InnoDBError>>,
    node: FileAddress,
    out: Seq<u8>,
    filled: nat,
    for_entry: Seq<Result<Seq<u8>, InnoDBError>>,
)
    requires
        follows(first_bytes, first_page, head, total, done, node, out, filled),
        !node.spec_is_null(),
        filled < out.len(),
        for_entry.len() == entry_pins(first_page, node),
        entry_outcome(first_bytes, first_page, node, for_entry) is Err,
    ensures
        gather_from(first_bytes, first_page, head, zero_bytes(total), 0, done + for_entry) == Err::<
            Seq<u8>,
            InnoDBError,
        >(entry_outcome(first_bytes, first_page, node, for_entry)->Err_0),
{
    reveal(follows);
    lemma_gather_entry_fails(first_bytes, first_page, node, out, filled, for_entry);
    assert(gather_from(first_bytes, first_page, head, zero_bytes(total), 0, done + for_entry)
        == gather_from(first_bytes, first_page, node, out, filled, for_entry));
}

/// A round that fails at copying fails the gathering.
pub proof fn lemma_follows_chunk_fails(
    first_bytes: Seq<u8>,
    first_page: u32,
    head: FileAddress,
    total: nat,
    done: Seq<Result<Seq<u8>, InnoDBError>>,
    node: FileAddress,
    out: Seq<u8>,
    filled: nat,
    for_entry: Seq<Result<Seq<u8>, InnoDBError>>,
    for_chunk: Seq<Result<Seq<u8>, InnoDBError>>,
)
    requires
        follows(first_bytes, first_page, head, total, done, node, out, filled),
        !node.spec_is_null(),
        filled < out.len(),
        for_entry.len() == entry_pins(first_page, node),
        entry_outcome(first_bytes, first_page, node, for_entry) is Ok,
        for_chunk.len() == chunk_pins(
            first_page,
            entry_outcome(first_bytes, first_page, node, for_entry)->Ok_0.page_number,
        ),
        chunk_outcome(
            first_bytes,
            first_page,
            entry_outcome(first_bytes, first_page, node, for_entry)->Ok_0.page_number,
            out.subrange(filled as int, out.len() as int),
            for_chunk,
        ) is Err,
    ensures
        gather_from(
            first_bytes,
            first_page,
            head,
            zero_bytes(total),
            0,
            done + for_entry + for_chunk,
        ) == Err::<Seq<u8>, InnoDBError>(
            chunk_outcome(
                first_bytes,
                first_page,
                entry_outcome(first_bytes, first_page, node, for_entry)->Ok_0.page_number,
                out.subrange(filled as int, out.len() as int),
                for_chunk,
            )->Err_0,
        ),
{
    reveal(follows);
    let none = Seq::<Result<Seq<u8>, InnoDBError>>::empty();
    let taken = for_entry + for_chunk + none;
    lemma_gather_step(first_bytes, first_page, node, out, filled, for_entry, for_chunk, none);
    assert(done + for_entry + for_chunk =~= done + taken);
    assert(gather_from(first_bytes, first_page, head, zero_bytes(total), 0, done + taken)
        == gather_from(first_bytes, first_page, node, out, filled, taken));
}

/// A round that succeeds takes the gathering to the next entry.
pub proof fn lemma_follows_step(
    first_bytes: Seq<u8>,
    first_page: u32,
    head: FileAddress,
    total: nat,
    done: Seq<Result<Seq<u8>, InnoDBError>>,
    node: FileAddress,
    out: Seq<u8>,
    filled: nat,
    for_entry: Seq<Result<Seq<u8>, InnoDBError>>,
    for_chunk: Seq<Result<Seq<u8>, InnoDBError>>,
)
    requires
        follows(first_bytes, first_page, head, total, done, node, out, filled),
        !node.spec_is_null(),
        filled < out.len(),
        for_entry.len() == entry_pins(first_page, node),
        entry_outcome(first_bytes, first_page, node, for_entry) is Ok,
        for_chunk.len() == chunk_pins(
            first_page,
            entry_outcome(first_bytes, first_page, node, for_entry)->Ok_0.page_number,
        ),
        chunk_outcome(
            first_bytes,
            first_page,
            entry_outcome(first_bytes, first_page, node, for_entry)->Ok_0.page_number,
            out.subrange(filled as int, out.len() as int),
            for_chunk,
        ) is Ok,
    ensures
        ({
            let entry = entry_outcome(first_bytes, first_page, node, for_entry)->Ok_0;
            let (bytes, n) = chunk_outcome(
                first_bytes,
                first_page,
                entry.page_number,
                out.subrange(filled as int, out.len() as int),
                for_chunk,
            )->Ok_0;
            follows(
                first_bytes,
                first_page,
                head,
                total,
                done + for_entry + for_chunk,
                entry.file_list_node.next,
                out.subrange(0, filled as int) + bytes,
                (filled + n) as nat,
            )
        }),
{
    reveal(follows);
    let entry = entry_outcome(first_bytes, first_page, node, for_entry)->Ok_0;
    let (bytes, n) = chunk_outcome(
        first_bytes,
        first_page,
        entry.page_number,
        out.subrange(filled as int, out.len() as int),
        for_chunk,
    )->Ok_0;
    let grown = done + for_entry + for_chunk;
    assert forall|rest: Seq<Result<Seq<u8>, InnoDBError>>|
        gather_from(first_bytes, first_page, head, zero_bytes(total), 0, grown + rest)
            == #[trigger] gather_from(
            first_bytes,
            first_page,
            entry.file_list_node.next,
            out.subrange(0, filled as int) + bytes,
            (filled + n) as nat,
            rest,
        ) by {
        let taken = for_entry + for_chunk + rest;
        lemma_gather_step(first_bytes, first_page, node, out, filled, for_entry, for_chunk, rest);
        assert(grown + rest =~= done + taken);
        assert(gather_from(first_bytes, first_page, head, zero_bytes(total), 0, done + taken)
            == gather_from(first_bytes, first_page, node, out, filled, taken));
    }
}

/// Reads the index entry at a file address. The entry of an address in the first page
/// of the value is read from that page; for any other page the page is pinned for the
/// time of the read. An address at which no entry fits its page is an error.
pub fn read_index_entry<B: BufferManager>(
    buffer_mgr: &mut B,
    first: &PageGuard,
    location: FileAddress,
) -> (r: Result<LobIndexEntry, InnoDBError>)
    requires
        old(buffer_mgr).inv(),
        old(buffer_mgr).pin_count(first.space_id(), first.page_number()) > 0,
    ensures
        final(buffer_mgr).inv(),
        pins_kept(old(buffer_mgr), final(buffer_mgr)),
        exists|deliveries: Seq<Result<Seq<u8>, InnoDBError>>|
            {
                &&& deliveries.len() == entry_pins(first.page_number(), location)
                &&& deliveries.len() == 1 ==> delivered_by(
                    old(buffer_mgr),
                    final(buffer_mgr),
                    first.space_id(),
                    location.page_number,
                    deliveries[0],
                )
                &&& r == #[trigger] entry_outcome(
                    old(buffer_mgr).page_bytes(first.space_id(), first.page_number()),
                    first.page_number(),
                    location,
                    deliveries,
                )
            },
        location.page_number != first.page_number() && r is Ok ==> r->Ok_0
            == LobIndexEntry::decode(
            final(buffer_mgr).page_bytes(first.space_id(), location.page_number),
            location.offset as int,
        ),
        location.page_number != first.page_number() && location.offset + 60 <= FIL_PAGE_SIZE
            ==> (old(buffer_mgr).refusal(first.space_id(), location.page_number) matches Some(e)
            ==> r == Err::<LobIndexEntry, InnoDBError>(e)),
{
    let ghost first_bytes = buffer_mgr.page_bytes(first.space_id(), first.page_number());
    let ghost none = Seq::<Result<Seq<u8>, InnoDBError>>::empty();
    if location.offset as usize + LobIndexEntry::size() > FIL_PAGE_SIZE {
        assert(entry_outcome(first_bytes, first.page_number(), location, none) == Err::<
            LobIndexEntry,
            InnoDBError,
        >(InnoDBError::InvalidPage));
        return Err(InnoDBError::InvalidPage);
    }
    if location.page_number == first.page_number() {
        let page = buffer_mgr.page(first);
        let entry = LobIndexEntry::read_at(page.raw_data, location.offset as usize);
        assert(entry_outcome(first_bytes, first.page_number(), location, none) == Ok::<
            LobIndexEntry,
            InnoDBError,
        >(entry));
        Ok(entry)
    } else {
        let guard = match buffer_mgr.pin(first.space_id(), location.page_number) {
            Ok(guard) => guard,
            Err(e) => {
                assert(entry_outcome(first_bytes, first.page_number(), location, seq![Err(e)])
                    == Err::<LobIndexEntry, InnoDBError>(e));
                return Err(e);
            },
        };
        let ghost delivered = buffer_mgr.page_bytes(first.space_id(), location.page_number);
        let entry = {
            let page = buffer_mgr.page(&guard);
            LobIndexEntry::read_at(page.raw_data, location.offset as usize)
        };
        buffer_mgr.unpin(guard);
        assert(buffer_mgr.page_bytes(first.space_id(), location.page_number) == delivered);
        assert(entry_outcome(first_bytes, first.page_number(), location, seq![Ok(delivered)])
            == Ok::<LobIndexEntry, InnoDBError>(entry));
        Ok(entry)
    }
}

/// Copies the data of one page of a value to `out`, from position `filled` on, and
/// returns the number of bytes copied: at least one. A page number that is that of the
/// first page stands for the data of the first page; any other page is a data page,
/// which is pinned for the time of the copy.
pub fn read_chunk<B: BufferManager>(
    buffer_mgr: &mut B,
    first: &PageGuard,
    page_number: u32,
    out: &mut Vec<u8>,
    filled: usize,
) -> (r: Result<usize, InnoDBError>)
    requires
        old(buffer_mgr).inv(),
        old(buffer_mgr).pin_count(first.space_id(), first.page_number()) > 0,
        filled < old(out)@.len(),
    ensures
        final(buffer_mgr).inv(),
        pins_kept(old(buffer_mgr), final(buffer_mgr)),
        final(out)@.len() == old(out)@.len(),
        r matches Ok(n) ==> 1 <= n <= old(out)@.len() - filled,
        page_number != first.page_number() && r is Ok ==> (match data_page_chunk(
            final(buffer_mgr).page_bytes(first.space_id(), page_number),
            old(out)@.subrange(filled as int, old(out)@.len() as int),
        ) {
            Ok((bytes, n)) => r == Ok::<usize, InnoDBError>(n as usize) && final(out)@
                == old(out)@.subrange(0, filled as int) + bytes,
            Err(_) => false,
        }),
        page_number != first.page_number() ==> (old(buffer_mgr).refusal(
            first.space_id(),
            page_number,
        ) matches Some(e) ==> r == Err::<usize, InnoDBError>(e)),
        exists|deliveries: Seq<Result<Seq<u8>, InnoDBError>>|
            {
                &&& deliveries.len() == chunk_pins(first.page_number(), page_number)
                &&& deliveries.len() == 1 ==> delivered_by(
                    old(buffer_mgr),
                    final(buffer_mgr),
                    first.space_id(),
                    page_number,
                    deliveries[0],
                )
                &&& match #[trigger] chunk_outcome(
                    old(buffer_mgr).page_bytes(first.space_id(), first.page_number()),
                    first.page_number(),
                    page_number,
                    old(out)@.subrange(filled as int, old(out)@.len() as int),
                    deliveries,
                ) {
                    Ok((bytes, n)) => r == Ok::<usize, InnoDBError>(n as usize) && final(out)@
                        == old(out)@.subrange(0, filled as int) + bytes,
                    Err(e) => r == Err::<usize, InnoDBError>(e) && final(out)@ == old(out)@,
                }
            },
{
    let ghost first_bytes = buffer_mgr.page_bytes(first.space_id(), first.page_number());
    let ghost dst = out@.subrange(filled as int, out@.len() as int);
    let ghost none = Seq::<Result<Seq<u8>, InnoDBError>>::empty();
    if page_number == first.page_number() {
        let page = buffer_mgr.page(first);
        let lob_first = match LobFirst::try_from_page(&page) {
            Ok(lob_first) => lob_first,
            Err(e) => {
                assert(chunk_outcome(first_bytes, first.page_number(), page_number, dst, none)
                    == Err::<(Seq<u8>, int), InnoDBError>(e));
                return Err(e);
            },
        };
        let (_, tail) = out.as_mut_slice().split_at_mut(filled);
        let r = lob_first.read(0, tail);
        proof {
            let model = chunk_outcome(first_bytes, first.page_number(), page_number, dst, none);
            match model {
                Ok((bytes, n)) => {
                    assert(out@ =~= old(out)@.subrange(0, filled as int) + bytes);
                },
                Err(e) => {
                    assert(out@ =~= old(out)@);
                },
            }
        }
        r
    } else {
        let guard = match buffer_mgr.pin(first.space_id(), page_number) {
            Ok(guard) => guard,
            Err(e) => {
                assert(chunk_outcome(
                    first_bytes,
                    first.page_number(),
                    page_number,
                    dst,
                    seq![Err(e)],
                ) == Err::<(Seq<u8>, int), InnoDBError>(e));
                return Err(e);
            },
        };
        let ghost delivered = buffer_mgr.page_bytes(first.space_id(), page_number);
        let result = {
            let page = buffer_mgr.page(&guard);
            match LobData::try_from_page(&page) {
                Ok(data) => {
                    let (_, tail) = out.as_mut_slice().split_at_mut(filled);
                    data.read(0, tail)
                },
                Err(e) => Err(e),
            }
        };
        buffer_mgr.unpin(guard);
        proof {
            assert(buffer_mgr.page_bytes(first.space_id(), page_number) == delivered);
            let model = chunk_outcome(
                first_bytes,
                first.page_number(),
                page_number,
                dst,
                seq![Ok(delivered)],
            );
            match model {
                Ok((bytes, n)) => {
                    assert(out@ =~= old(out)@.subrange(0, filled as int) + bytes);
                },
                Err(e) => {
                    assert(out@ =~= old(out)@);
                },
            }
        }
        result
    }
}

/// Gathers the bytes of a value whose first page is pinned: follows the index entries
/// from the head of the index list and copies the data of the page of each, until
/// `total` bytes are there.
pub fn gather_lob<B: BufferManager>(buffer_mgr: &mut B, first: &PageGuard, total: usize) -> (r:
    Result<Vec<u8>, InnoDBError>)
    requires
        old(buffer_mgr).inv(),
        old(buffer_mgr).pin_count(first.space_id(), first.page_number()) > 0,
    ensures
        final(buffer_mgr).inv(),
        pins_kept(old(buffer_mgr), final(buffer_mgr)),
        r matches Ok(bytes) ==> bytes@.len() == total,
        exists|deliveries: Seq<Result<Seq<u8>, InnoDBError>>|
            gathered(
                r,
                #[trigger] lob_value(
                    old(buffer_mgr).page_bytes(first.space_id(), first.page_number()),
                    first.page_number(),
                    total as nat,
                    deliveries,
                ),
            ),
{
    let ghost first_bytes = buffer_mgr.page_bytes(first.space_id(), first.page_number());
    let ghost first_page = first.page_number();
    let ghost none = Seq::<Result<Seq<u8>, InnoDBError>>::empty();
    let head: FileAddress = {
        let page = buffer_mgr.page(first);
        if page.header.offset != first.page_number() {
            assert(gathered(
                Err(InnoDBError::InvalidPage),
                lob_value(first_bytes, first_page, total as nat, none),
            ));
            return Err(InnoDBError::InvalidPage);
        }
        match LobFirst::try_from_page(&page) {
            Ok(lob_first) => lob_first.header.index_list_head.first_node,
            Err(e) => {
                assert(gathered(Err(e), lob_value(first_bytes, first_page, total as nat, none)));
                return Err(e);
            },
        }
    };
    let mut out: Vec<u8> = vec![0u8; total];
    assert(out@ =~= zero_bytes(total as nat));
    let mut filled: usize = 0;
    let mut node_location = head;
    let ghost mut done = none;
    proof {
        lemma_follows_start(first_bytes, first_page, head, total as nat);
    }
    while !node_location.is_null() && filled < total
        invariant
            buffer_mgr.inv(),
            pins_kept(old(buffer_mgr), buffer_mgr),
            old(buffer_mgr).pin_count(first.space_id(), first.page_number()) > 0,
            first_bytes == old(buffer_mgr).page_bytes(first.space_id(), first.page_number()),
            first_page == first.page_number(),
            forall|deliveries: Seq<Result<Seq<u8>, InnoDBError>>|
                #[trigger] lob_value(first_bytes, first_page, total as nat, deliveries)
                    == gather_from(
                    first_bytes,
                    first_page,
                    head,
                    zero_bytes(total as nat),
                    0,
                    deliveries,
                ),
            out@.len() == total,
            filled <= total,
            follows(
                first_bytes,
                first_page,
                head,
                total as nat,
                done,
                node_location,
                out@,
                filled as nat,
            ),
        decreases total - filled,
    {
        assert(buffer_mgr.page_bytes(first.space_id(), first.page_number()) == first_bytes);
        let read = read_index_entry(buffer_mgr, first, node_location);
        let ghost for_entry = choose|d: Seq<Result<Seq<u8>, InnoDBError>>|
            d.len() == entry_pins(first_page, node_location) && read == #[trigger] entry_outcome(
                first_bytes,
                first_page,
                node_location,
                d,
            );
        let entry = match read {
            Ok(entry) => entry,
            Err(e) => {
                proof {
                    lemma_follows_entry_fails(
                        first_bytes,
                        first_page,
                        head,
                        total as nat,
                        done,
                        node_location,
                        out@,
                        filled as nat,
                        for_entry,
                    );
                    assert(gathered(
                        Err(e),
                        lob_value(first_bytes, first_page, total as nat, done + for_entry),
                    ));
                }
                return Err(e);
            },
        };
        assert(buffer_mgr.page_bytes(first.space_id(), first.page_number()) == first_bytes);
        let ghost before = out@;
        let copied = read_chunk(buffer_mgr, first, entry.page_number, &mut out, filled);
        let ghost for_chunk = choose|d: Seq<Result<Seq<u8>, InnoDBError>>|
            {
                &&& d.len() == chunk_pins(first_page, entry.page_number)
                &&& match #[trigger] chunk_outcome(
                    first_bytes,
                    first_page,
                    entry.page_number,
                    before.subrange(filled as int, before.len() as int),
                    d,
                ) {
                    Ok((bytes, n)) => copied == Ok::<usize, InnoDBError>(n as usize) && out@
                        == before.subrange(0, filled as int) + bytes,
                    Err(e) => copied == Err::<usize, InnoDBError>(e) && out@ == before,
                }
            };
        let bytes_read = match copied {
            Ok(n) => n,
            Err(e) => {
                proof {
                    lemma_follows_chunk_fails(
                        first_bytes,
                        first_page,
                        head,
                        total as nat,
                        done,
                        node_location,
                        before,
                        filled as nat,
                        for_entry,
                        for_chunk,
                    );
                    assert(gathered(
                        Err(e),
                        lob_value(
                            first_bytes,
                            first_page,
                            total as nat,
                            done + for_entry + for_chunk,
                        ),
                    ));
                }
                return Err(e);
            },
        };
        proof {
            lemma_follows_step(
                first_bytes,
                first_page,
                head,
                total as nat,
                done,
                node_location,
                before,
                filled as nat,
                for_entry,
                for_chunk,
            );
            done = done + for_entry + for_chunk;
        }
        filled += bytes_read;
        node_location = entry.file_list_node.next;
    }
    proof {
        lemma_follows_end(
            first_bytes,
            first_page,
            head,
            total as nat,
            done,
            node_location,
            out@,
            filled as nat,
        );
    }
    if filled < total {
        assert(gathered(
            Err(InnoDBError::ReadIncomplete),
            lob_value(first_bytes, first_page, total as nat, done),
        ));
        return Err(InnoDBError::ReadIncomplete);
    }
    assert(gathered(Ok(out), lob_value(first_bytes, first_page, total as nat, done)));
    Ok(out)
}

/// What fetching the bytes of a value gave, as far as the buffer manager shows it.
/// A length that the machine cannot count is an error, and so is a first pin that was
/// bound to fail. Bytes that were fetched are as many as the reference says, and they
/// are what gathering gives from the first page as the manager holds it afterwards.
pub open spec fn loads<B: BufferManager>(
    before: &B,
    after: &B,
    reference: ExternReference,
    loaded: Result<Seq<u8>, InnoDBError>,
) -> bool {
    &&& reference.length > usize::MAX ==> loaded == Err::<Seq<u8>, InnoDBError>(
        InnoDBError::InvalidLength,
    )
    &&& reference.length <= usize::MAX ==> (before.refusal(
        reference.space_id,
        reference.page_number,
    ) matches Some(e) ==> loaded == Err::<Seq<u8>, InnoDBError>(e))
    &&& loaded matches Ok(bytes) ==> bytes.len() == reference.length && exists|
        deliveries: Seq<Result<Seq<u8>, InnoDBError>>,
    |
        #[trigger] extern_bytes(
            reference,
            Ok(after.page_bytes(reference.space_id, reference.page_number)),
            deliveries,
        ) == Ok::<Seq<u8>, InnoDBError>(bytes)
    &&& exists|first: Result<Seq<u8>, InnoDBError>, deliveries: Seq<Result<Seq<u8>, InnoDBError>>|
        delivered_by(before, after, reference.space_id, reference.page_number, first) && loaded
            == #[trigger] extern_bytes(reference, first, deliveries)
}

/// The bytes that were fetched, or the error, as a value of the model.
pub open spec fn fetched(r: Result<Vec<u8>, InnoDBError>) -> Result<Seq<u8>, InnoDBError> {
    match r {
        Ok(bytes) => Ok(bytes@),
        Err(e) => Err(e),
    }
}

/// Fetches the bytes of the value that a reference stands for: pins the first page
/// of the value, gathers the bytes, and releases every pin it took. The page that is
/// pinned first is the page that the reference names; where that pin is bound to fail,
/// its error is the result.
pub fn load_value<B: BufferManager>(reference: &ExternReference, buffer_mgr: &mut B) -> (r: Result<
    Vec<u8>,
    InnoDBError,
>)
    requires
        old(buffer_mgr).inv(),
    ensures
        final(buffer_mgr).inv(),
        pins_kept(old(buffer_mgr), final(buffer_mgr)),
        reference.length > usize::MAX ==> r == Err::<Vec<u8>, InnoDBError>(
            InnoDBError::InvalidLength,
        ),
        reference.length <= usize::MAX ==> (old(buffer_mgr).refusal(
            reference.space_id,
            reference.page_number,
        ) matches Some(e) ==> r == Err::<Vec<u8>, InnoDBError>(e)),
        r matches Ok(bytes) ==> bytes@.len() == reference.length && exists|
            deliveries: Seq<Result<Seq<u8>, InnoDBError>>,
        |
            #[trigger] extern_bytes(
                *reference,
                Ok(final(buffer_mgr).page_bytes(reference.space_id, reference.page_number)),
                deliveries,
            ) == Ok::<Seq<u8>, InnoDBError>(bytes@),
        loads(old(buffer_mgr), final(buffer_mgr), *reference, fetched(r)),
{
    let ghost none = Seq::<Result<Seq<u8>, InnoDBError>>::empty();
    if reference.length > usize::MAX as u64 {
        assert(extern_bytes(
            *reference,
            Err(
                match buffer_mgr.refusal(reference.space_id, reference.page_number) {
                    Some(e) => e,
                    None => InnoDBError::InvalidLength,
                },
            ),
            none,
        ) == Err::<Seq<u8>, InnoDBError>(InnoDBError::InvalidLength));
        return Err(InnoDBError::InvalidLength);
    }
    let total = reference.length as usize;
    let first = match buffer_mgr.pin(reference.space_id, reference.page_number) {
        Ok(guard) => guard,
        Err(e) => {
            assert(extern_bytes(*reference, Err(e), none) == Err::<Seq<u8>, InnoDBError>(e));
            return Err(e);
        },
    };
    let ghost first_bytes = buffer_mgr.page_bytes(reference.space_id, reference.page_number);
    let result = gather_lob(buffer_mgr, &first, total);
    assert(buffer_mgr.page_bytes(reference.space_id, reference.page_number) == first_bytes);
    buffer_mgr.unpin(first);
    proof {
        assert(buffer_mgr.page_bytes(reference.space_id, reference.page_number) == first_bytes);
        let deliveries = choose|d: Seq<Result<Seq<u8>, InnoDBError>>|
            gathered(
                result,
                #[trigger] lob_value(first_bytes, reference.page_number, total as nat, d),
            );
        assert(fetched(result) == extern_bytes(*reference, Ok(first_bytes), deliveries));
        assert(delivered_by(
            old(buffer_mgr),
            buffer_mgr,
            reference.space_id,
            reference.page_number,
            Ok(first_bytes),
        ));
    }
    result
}

} // verus!
