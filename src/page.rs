//! B-tree pages: the page header, the cell-pointer array, and the four page kinds.
use vstd::prelude::*;

use crate::error::Error;
use crate::varint::{read_varint_at, varint_at};

verus! {

/// The kind of a B-tree page, from its first byte.
#[derive(Debug, Clone, Copy, PartialEq, Eq, Structural)]
pub enum PageType {
    LeafIndex,
    LeafTable,
    InteriorIndex,
    InteriorTable,
}

/// The page kind that a tag byte denotes: 0x0a, 0x0d, 0x02, 0x05.
pub open spec fn page_type_of(byte: u8) -> Option<PageType> {
    if byte == 0x0a {
        Some(PageType::LeafIndex)
    } else if byte == 0x0d {
        Some(PageType::LeafTable)
    } else if byte == 0x02 {
        Some(PageType::InteriorIndex)
    } else if byte == 0x05 {
        Some(PageType::InteriorTable)
    } else {
        None
    }
}

impl PageType {
    pub open spec fn is_interior(self) -> bool {
        self is InteriorIndex || self is InteriorTable
    }

    /// Length of the page header: 12 bytes on interior pages, 8 on leaves.
    pub open spec fn header_len(self) -> nat {
        if self.is_interior() {
            12
        } else {
            8
        }
    }

    pub fn from_byte(byte: u8) -> (r: Result<Self, Error>)
        ensures
            r == match page_type_of(byte) {
                Some(t) => Ok(t),
                None => Err(Error::InvalidPageType { byte }),
            },
    {
        match byte {
            0x0a => Ok(PageType::LeafIndex),
            0x0d => Ok(PageType::LeafTable),
            0x02 => Ok(PageType::InteriorIndex),
            0x05 => Ok(PageType::InteriorTable),
            other => Err(Error::InvalidPageType { byte: other }),
        }
    }
}

/// Big-endian `u16` at `i`.
pub open spec fn be16(b: Seq<u8>, i: int) -> u16 {
    (b[i] * 256 + b[i + 1]) as u16
}

/// Big-endian `u32` at `i`.
pub open spec fn be32(b: Seq<u8>, i: int) -> u32 {
    (((b[i] * 256 + b[i + 1]) * 256 + b[i + 2]) * 256 + b[i + 3]) as u32
}

/// The fields of a B-tree page header, as values.
pub struct PageHeaderView {
    pub page_type: PageType,
    pub first_freeblock: u16,
    pub cell_count: u16,
    pub cell_content_start: u16,
    pub fragmented_bytes: u8,
    pub rightmost_pointer: Option<u32>,
    pub cell_pointers: Seq<u16>,
}

/// Why the page header in `b` cannot be read, if it cannot.
pub open spec fn page_header_error(b: Seq<u8>) -> Option<Error> {
    if b.len() == 0 {
        Some(Error::HeaderTooShort)
    } else {
        match page_type_of(b[0]) {
            None => Some(Error::InvalidPageType { byte: b[0] }),
            Some(t) => if b.len() < t.header_len() {
                Some(Error::HeaderTooShort)
            } else if be16(b, 3) > (b.len() - t.header_len()) / 2 {
                Some(Error::CellPointerOutOfBounds { cell: ((b.len() - t.header_len()) / 2) as u16 })
            } else {
                None
            },
        }
    }
}

/// The page header that `b` holds, where `page_header_error(b)` is `None`.
pub open spec fn page_header_of(b: Seq<u8>) -> PageHeaderView {
    let t = page_type_of(b[0])->0;
    PageHeaderView {
        page_type: t,
        first_freeblock: be16(b, 1),
        cell_count: be16(b, 3),
        cell_content_start: be16(b, 5),
        fragmented_bytes: b[7],
        rightmost_pointer: if t.is_interior() {
            Some(be32(b, 8))
        } else {
            None
        },
        cell_pointers: Seq::new(be16(b, 3) as nat, |i: int| be16(b, t.header_len() + 2 * i)),
    }
}

/// Common B-tree page header structure shared by all SQLite page types.
#[derive(Debug, Clone, PartialEq)]
pub struct BTreePageHeader {
    pub page_type: PageType,
    pub first_freeblock: u16,
    pub cell_count: u16,
    pub cell_content_start: u16,
    pub fragmented_bytes: u8,
    /// Only on interior pages.
    pub rightmost_pointer: Option<u32>,
    /// Cell offsets in key order.
    pub cell_pointers: Vec<u16>,
}

impl View for BTreePageHeader {
    type V = PageHeaderView;

    open spec fn view(&self) -> PageHeaderView {
        PageHeaderView {
            page_type: self.page_type,
            first_freeblock: self.first_freeblock,
            cell_count: self.cell_count,
            cell_content_start: self.cell_content_start,
            fragmented_bytes: self.fragmented_bytes,
            rightmost_pointer: self.rightmost_pointer,
            cell_pointers: self.cell_pointers@,
        }
    }
}

fn read_be16(buffer: &[u8], i: usize) -> (r: u16)
    requires
        i + 1 < buffer@.len(),
    ensures
        r == be16(buffer@, i as int),
{
    buffer[i] as u16 * 256 + buffer[i + 1] as u16
}

fn read_be32(buffer: &[u8], i: usize) -> (r: u32)
    requires
        i + 3 < buffer@.len(),
    ensures
        r == be32(buffer@, i as int),
{
    ((buffer[i] as u32 * 256 + buffer[i + 1] as u32) * 256 + buffer[i + 2] as u32) * 256
        + buffer[i + 3] as u32
}

impl BTreePageHeader {
    /// Reads the page header and the cell-pointer array at the start of `buffer`.
    pub fn parse(buffer: &[u8]) -> (r: Result<Self, Error>)
        ensures
            match page_header_error(buffer@) {
                Some(e) => r == Err::<Self, Error>(e),
                None => r matches Ok(h) && h@ == page_header_of(buffer@),
            },
    {
        if buffer.len() == 0 {
            return Err(Error::HeaderTooShort);
        }
        let page_type = match PageType::from_byte(buffer[0]) {
            Ok(t) => t,
            Err(e) => return Err(e),
        };
        let header_size: usize = match page_type {
            PageType::InteriorIndex | PageType::InteriorTable => 12,
            _ => 8,
        };
        if buffer.len() < header_size {
            return Err(Error::HeaderTooShort);
        }
        let first_freeblock = read_be16(buffer, 1);
        let cell_count = read_be16(buffer, 3);
        let cell_content_start = read_be16(buffer, 5);
        let fragmented_bytes = buffer[7];
        let rightmost_pointer = if header_size == 12 {
            Some(read_be32(buffer, 8))
        } else {
            None
        };
        let ghost want = page_header_of(buffer@);
        let mut cell_pointers: Vec<u16> = Vec::new();
        let mut i: u16 = 0;
        while i < cell_count
            invariant
                header_size == page_type.header_len(),
                page_type_of(buffer@[0]) == Some(page_type),
                header_size <= buffer@.len(),
                cell_count == be16(buffer@, 3),
                i <= cell_count,
                header_size + 2 * i <= buffer@.len(),
                want == page_header_of(buffer@),
                cell_pointers@ == want.cell_pointers.subrange(0, i as int),
            decreases cell_count - i,
        {
            let offset = header_size + (i as usize) * 2;
            if offset + 1 >= buffer.len() {
                return Err(Error::CellPointerOutOfBounds { cell: i });
            }
            cell_pointers.push(read_be16(buffer, offset));
            i = i + 1;
            assert(cell_pointers@ =~= want.cell_pointers.subrange(0, i as int));
        }
        assert(cell_pointers@ =~= want.cell_pointers);
        Ok(Self {
            page_type,
            first_freeblock,
            cell_count,
            cell_content_start,
            fragmented_bytes,
            rightmost_pointer,
            cell_pointers,
        })
    }
}

/// A leaf page of an index B-tree.
#[derive(Debug, Clone, PartialEq)]
pub struct LeafIndexPage {
    pub first_freeblock: u16,
    pub cell_count: u16,
    pub cell_content_start: u16,
    pub fragmented_bytes: u8,
    pub cell_pointers: Vec<u16>,
}

/// A leaf page of a table B-tree: its cells are the rows.
#[derive(Debug, Clone, PartialEq)]
pub struct LeafTablePage {
    pub first_freeblock: u16,
    pub cell_count: u16,
    pub cell_content_start: u16,
    pub fragmented_bytes: u8,
    pub cell_pointers: Vec<u16>,
}

/// An interior page of an index B-tree.
#[derive(Debug, Clone, PartialEq)]
pub struct InteriorIndexPage {
    pub first_freeblock: u16,
    pub cell_count: u16,
    pub cell_content_start: u16,
    pub fragmented_bytes: u8,
    pub rightmost_pointer: u32,
    pub cell_pointers: Vec<u16>,
}

/// An interior page of a table B-tree: its cells point at child pages.
#[derive(Debug, Clone, PartialEq)]
pub struct InteriorTablePage {
    pub first_freeblock: u16,
    pub cell_count: u16,
    pub cell_content_start: u16,
    pub fragmented_bytes: u8,
    pub rightmost_pointer: u32,
    pub cell_pointers: Vec<u16>,
}

/// Why `b` cannot be read as a page of kind `t`, if it cannot.
pub open spec fn page_of_kind_error(b: Seq<u8>, t: PageType) -> Option<Error> {
    match page_header_error(b) {
        Some(e) => Some(e),
        None => if page_header_of(b).page_type != t {
            Some(Error::UnexpectedPageKind { tag: b[0] })
        } else {
            None
        },
    }
}

impl LeafIndexPage {
    pub open spec fn view_header(&self) -> PageHeaderView {
        PageHeaderView {
            page_type: PageType::LeafIndex,
            first_freeblock: self.first_freeblock,
            cell_count: self.cell_count,
            cell_content_start: self.cell_content_start,
            fragmented_bytes: self.fragmented_bytes,
            rightmost_pointer: None,
            cell_pointers: self.cell_pointers@,
        }
    }

    /// Reads `buffer` as a leaf index page; another kind of page is an error.
    pub fn parse(buffer: &[u8]) -> (r: Result<Self, Error>)
        ensures
            match page_of_kind_error(buffer@, PageType::LeafIndex) {
                Some(e) => r == Err::<Self, Error>(e),
                None => r matches Ok(p) && p.view_header() == page_header_of(buffer@),
            },
    {
        let header = match BTreePageHeader::parse(buffer) {
            Ok(h) => h,
            Err(e) => return Err(e),
        };
        match header.page_type {
            PageType::LeafIndex => Ok(Self {
                first_freeblock: header.first_freeblock,
                cell_count: header.cell_count,
                cell_content_start: header.cell_content_start,
                fragmented_bytes: header.fragmented_bytes,
                cell_pointers: header.cell_pointers,
            }),
            _ => Err(Error::UnexpectedPageKind { tag: buffer[0] }),
        }
    }
}

impl LeafTablePage {
    pub open spec fn view_header(&self) -> PageHeaderView {
        PageHeaderView {
            page_type: PageType::LeafTable,
            first_freeblock: self.first_freeblock,
            cell_count: self.cell_count,
            cell_content_start: self.cell_content_start,
            fragmented_bytes: self.fragmented_bytes,
            rightmost_pointer: None,
            cell_pointers: self.cell_pointers@,
        }
    }

    /// Reads `buffer` as a leaf table page; another kind of page is an error.
    pub fn parse(buffer: &[u8]) -> (r: Result<Self, Error>)
        ensures
            match page_of_kind_error(buffer@, PageType::LeafTable) {
                Some(e) => r == Err::<Self, Error>(e),
                None => r matches Ok(p) && p.view_header() == page_header_of(buffer@),
            },
    {
        let header = match BTreePageHeader::parse(buffer) {
            Ok(h) => h,
            Err(e) => return Err(e),
        };
        match header.page_type {
            PageType::LeafTable => Ok(Self {
                first_freeblock: header.first_freeblock,
                cell_count: header.cell_count,
                cell_content_start: header.cell_content_start,
                fragmented_bytes: header.fragmented_bytes,
                cell_pointers: header.cell_pointers,
            }),
            _ => Err(Error::UnexpectedPageKind { tag: buffer[0] }),
        }
    }
}

impl InteriorIndexPage {
    pub open spec fn view_header(&self) -> PageHeaderView {
        PageHeaderView {
            page_type: PageType::InteriorIndex,
            first_freeblock: self.first_freeblock,
            cell_count: self.cell_count,
            cell_content_start: self.cell_content_start,
            fragmented_bytes: self.fragmented_bytes,
            rightmost_pointer: Some(self.rightmost_pointer),
            cell_pointers: self.cell_pointers@,
        }
    }

    /// Reads `buffer` as an interior index page; another kind of page is an error.
    pub fn parse(buffer: &[u8]) -> (r: Result<Self, Error>)
        ensures
            match page_of_kind_error(buffer@, PageType::InteriorIndex) {
                Some(e) => r == Err::<Self, Error>(e),
                None => r matches Ok(p) && p.view_header() == page_header_of(buffer@),
            },
    {
        let header = match BTreePageHeader::parse(buffer) {
            Ok(h) => h,
            Err(e) => return Err(e),
        };
        match (header.page_type, header.rightmost_pointer) {
            (PageType::InteriorIndex, Some(rightmost_pointer)) => Ok(Self {
                first_freeblock: header.first_freeblock,
                cell_count: header.cell_count,
                cell_content_start: header.cell_content_start,
                fragmented_bytes: header.fragmented_bytes,
                rightmost_pointer,
                cell_pointers: header.cell_pointers,
            }),
            _ => Err(Error::UnexpectedPageKind { tag: buffer[0] }),
        }
    }
}

impl InteriorTablePage {
    pub open spec fn view_header(&self) -> PageHeaderView {
        PageHeaderView {
            page_type: PageType::InteriorTable,
            first_freeblock: self.first_freeblock,
            cell_count: self.cell_count,
            cell_content_start: self.cell_content_start,
            fragmented_bytes: self.fragmented_bytes,
            rightmost_pointer: Some(self.rightmost_pointer),
            cell_pointers: self.cell_pointers@,
        }
    }

    /// Reads `buffer` as an interior table page; another kind of page is an error.
    pub fn parse(buffer: &[u8]) -> (r: Result<Self, Error>)
        ensures
            match page_of_kind_error(buffer@, PageType::InteriorTable) {
                Some(e) => r == Err::<Self, Error>(e),
                None => r matches Ok(p) && p.view_header() == page_header_of(buffer@),
            },
    {
        let header = match BTreePageHeader::parse(buffer) {
            Ok(h) => h,
            Err(e) => return Err(e),
        };
        match (header.page_type, header.rightmost_pointer) {
            (PageType::InteriorTable, Some(rightmost_pointer)) => Ok(Self {
                first_freeblock: header.first_freeblock,
                cell_count: header.cell_count,
                cell_content_start: header.cell_content_start,
                fragmented_bytes: header.fragmented_bytes,
                rightmost_pointer,
                cell_pointers: header.cell_pointers,
            }),
            _ => Err(Error::UnexpectedPageKind { tag: buffer[0] }),
        }
    }
}

/// A B-tree page of any of the four kinds.
#[derive(Debug, Clone, PartialEq)]
pub enum BTreePage {
    LeafIndex(LeafIndexPage),
    LeafTable(LeafTablePage),
    InteriorIndex(InteriorIndexPage),
    InteriorTable(InteriorTablePage),
}

impl View for BTreePage {
    type V = PageHeaderView;

    open spec fn view(&self) -> PageHeaderView {
        match self {
            BTreePage::LeafIndex(p) => p.view_header(),
            BTreePage::LeafTable(p) => p.view_header(),
            BTreePage::InteriorIndex(p) => p.view_header(),
            BTreePage::InteriorTable(p) => p.view_header(),
        }
    }
}

/// The outcome of reading `b` as a page, up to the page's kind.
pub open spec fn page_outcome(b: Seq<u8>) -> Result<PageType, Error> {
    match page_header_error(b) {
        Some(e) => Err(e),
        None => Ok(page_header_of(b).page_type),
    }
}

/// Page dispatch: a buffer whose first byte is 0x0d, 0x0a, 0x05 or 0x02, and
/// which is long enough for its header and cell pointers, reads as the page
/// kind of that byte; any other first byte is `InvalidPageType`.
pub proof fn lemma_page_dispatch(b: Seq<u8>)
    requires
        b.len() > 0,
    ensures
        page_type_of(b[0]) is None ==> page_outcome(b) == Err::<PageType, Error>(
            Error::InvalidPageType { byte: b[0] },
        ),
        b[0] == 0x0d && b.len() >= 8 && 8 + 2 * be16(b, 3) <= b.len() ==> page_outcome(b) == Ok::<
            PageType,
            Error,
        >(PageType::LeafTable),
        b[0] == 0x0a && b.len() >= 8 && 8 + 2 * be16(b, 3) <= b.len() ==> page_outcome(b) == Ok::<
            PageType,
            Error,
        >(PageType::LeafIndex),
        b[0] == 0x05 && b.len() >= 12 && 12 + 2 * be16(b, 3) <= b.len() ==> page_outcome(b) == Ok::<
            PageType,
            Error,
        >(PageType::InteriorTable),
        b[0] == 0x02 && b.len() >= 12 && 12 + 2 * be16(b, 3) <= b.len() ==> page_outcome(b) == Ok::<
            PageType,
            Error,
        >(PageType::InteriorIndex),
{
}

impl BTreePage {
    /// Reads `buffer` as a B-tree page of the kind that its first byte names.
    pub fn parse(buffer: &[u8]) -> (r: Result<Self, Error>)
        ensures
            match page_header_error(buffer@) {
                Some(e) => r == Err::<Self, Error>(e),
                None => r matches Ok(p) && p@ == page_header_of(buffer@),
            },
            page_outcome(buffer@) == match r {
                Ok(p) => Ok::<PageType, Error>(p@.page_type),
                Err(e) => Err(e),
            },
    {
        let header = match BTreePageHeader::parse(buffer) {
            Ok(h) => h,
            Err(e) => return Err(e),
        };
        match (header.page_type, header.rightmost_pointer) {
            (PageType::LeafIndex, _) => Ok(Self::LeafIndex(LeafIndexPage {
                first_freeblock: header.first_freeblock,
                cell_count: header.cell_count,
                cell_content_start: header.cell_content_start,
                fragmented_bytes: header.fragmented_bytes,
                cell_pointers: header.cell_pointers,
            })),
            (PageType::LeafTable, _) => Ok(Self::LeafTable(LeafTablePage {
                first_freeblock: header.first_freeblock,
                cell_count: header.cell_count,
                cell_content_start: header.cell_content_start,
                fragmented_bytes: header.fragmented_bytes,
                cell_pointers: header.cell_pointers,
            })),
            (PageType::InteriorIndex, Some(rightmost_pointer)) => Ok(
                Self::InteriorIndex(InteriorIndexPage {
                    first_freeblock: header.first_freeblock,
                    cell_count: header.cell_count,
                    cell_content_start: header.cell_content_start,
                    fragmented_bytes: header.fragmented_bytes,
                    rightmost_pointer,
                    cell_pointers: header.cell_pointers,
                }),
            ),
            (_, Some(rightmost_pointer)) => Ok(Self::InteriorTable(InteriorTablePage {
                first_freeblock: header.first_freeblock,
                cell_count: header.cell_count,
                cell_content_start: header.cell_content_start,
                fragmented_bytes: header.fragmented_bytes,
                rightmost_pointer,
                cell_pointers: header.cell_pointers,
            })),
            (_, None) => Err(Error::HeaderTooShort),
        }
    }

    /// Number of cells on this page alone (not the rows of a whole tree).
    pub fn cell_count(&self) -> (r: u16)
        ensures
            r == self@.cell_count,
    {
        match self {
            Self::LeafIndex(p) => p.cell_count,
            Self::LeafTable(p) => p.cell_count,
            Self::InteriorIndex(p) => p.cell_count,
            Self::InteriorTable(p) => p.cell_count,
        }
    }

    pub fn is_leaf(&self) -> (r: bool)
        ensures
            r == !self@.page_type.is_interior(),
    {
        matches!(self, Self::LeafIndex(_) | Self::LeafTable(_))
    }

    pub fn is_table_page(&self) -> (r: bool)
        ensures
            r == (self@.page_type is LeafTable || self@.page_type is InteriorTable),
    {
        matches!(self, Self::LeafTable(_) | Self::InteriorTable(_))
    }

    /// The cell offsets, in key order.
    pub fn cells(&self) -> (r: Vec<u16>)
        ensures
            r@ == self@.cell_pointers,
    {
        let pointers: &Vec<u16> = match self {
            Self::LeafIndex(p) => &p.cell_pointers,
            Self::LeafTable(p) => &p.cell_pointers,
            Self::InteriorIndex(p) => &p.cell_pointers,
            Self::InteriorTable(p) => &p.cell_pointers,
        };
        let mut out: Vec<u16> = Vec::new();
        let mut i: usize = 0;
        while i < pointers.len()
            invariant
                i <= pointers@.len(),
                out@ == pointers@.subrange(0, i as int),
            decreases pointers@.len() - i,
        {
            out.push(pointers[i]);
            i = i + 1;
            assert(out@ =~= pointers@.subrange(0, i as int));
        }
        assert(out@ =~= pointers@);
        out
    }
}

/// A cell of an interior table page: the child page that holds keys up to
/// `key`.
#[derive(Debug, Clone, Copy, PartialEq, Eq, Structural)]
pub struct InteriorTableCell {
    pub left_child: u32,
    pub key: u64,
}

/// The interior table cell at `offset`: a 4-byte child page number, then a varint key.
pub open spec fn interior_cell_at(b: Seq<u8>, offset: int) -> Result<InteriorTableCell, Error> {
    if offset + 4 > b.len() {
        Err(Error::CellOutOfBounds { offset: offset as u16 })
    } else {
        match varint_at(b, offset + 4) {
            Ok((key, n)) => Ok(InteriorTableCell { left_child: be32(b, offset), key }),
            Err(e) => Err(e),
        }
    }
}

impl InteriorTableCell {
    /// Reads the interior table cell at `cell_offset` of the page in `buffer`.
    pub fn parse(buffer: &[u8], cell_offset: u16) -> (r: Result<Self, Error>)
        ensures
            r == interior_cell_at(buffer@, cell_offset as int),
    {
        let offset = cell_offset as usize;
        if buffer.len() < 4 || offset > buffer.len() - 4 {
            return Err(Error::CellOutOfBounds { offset: cell_offset });
        }
        let left_child = read_be32(buffer, offset);
        match read_varint_at(buffer, offset + 4) {
            Ok((key, _)) => Ok(Self { left_child, key }),
            Err(e) => Err(e),
        }
    }
}

} // verus!
