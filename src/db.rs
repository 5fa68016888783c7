//! The database file header and the open session over one database image.
use vstd::prelude::*;
use vstd::string::*;

use crate::catalog::{catalog_page_of, catalog_table_names, names_view, RootPage};
use crate::error::Error;
use crate::page::be16;
use crate::pager::{page_bytes, PageNumber, Pager};
use crate::DATABASE_HEADER_SIZE;

verus! {

/// `"SQLite format 3\0"`, the first 16 bytes of every database file.
pub open spec fn sqlite_magic() -> Seq<u8> {
    seq![
        0x53u8,
        0x51,
        0x4c,
        0x69,
        0x74,
        0x65,
        0x20,
        0x66,
        0x6f,
        0x72,
        0x6d,
        0x61,
        0x74,
        0x20,
        0x33,
        0x00,
    ]
}

/// A page size field that the format allows: a power of two from 512 to
/// 32768, or 1 for 65536.
pub open spec fn valid_page_size(raw: u16) -> bool {
    raw == 1 || raw == 512 || raw == 1024 || raw == 2048 || raw == 4096 || raw == 8192 || raw
        == 16384 || raw == 32768
}

/// Page size in bytes for a page size field.
pub open spec fn page_size_of(raw: u16) -> nat {
    if raw == 1 {
        65536
    } else {
        raw as nat
    }
}

/// The page size field of the header at the start of `b`, or why the header
/// cannot be read.
pub open spec fn db_header_of(b: Seq<u8>) -> Result<u16, Error> {
    if b.len() < DATABASE_HEADER_SIZE {
        Err(Error::TooSmallForHeader)
    } else if b.subrange(0, 16) != sqlite_magic() {
        Err(Error::InvalidMagic)
    } else if !valid_page_size(be16(b, 16)) {
        Err(Error::InvalidPageSize { raw: be16(b, 16) })
    } else {
        Ok(be16(b, 16))
    }
}

/// The first 100 bytes of the file.
#[derive(Debug, Clone, PartialEq)]
pub struct DbHeader {
    /// The page size field as stored: 1 stands for 65536.
    pub page_size: u16,
    /// The whole header, kept for fields that are not read yet.
    pub raw: Vec<u8>,
}

fn magic_matches(bytes: &[u8]) -> (r: bool)
    requires
        bytes@.len() >= 16,
    ensures
        r == (bytes@.subrange(0, 16) == sqlite_magic()),
{
    let magic: [u8; 16] = [
        0x53,
        0x51,
        0x4c,
        0x69,
        0x74,
        0x65,
        0x20,
        0x66,
        0x6f,
        0x72,
        0x6d,
        0x61,
        0x74,
        0x20,
        0x33,
        0x00,
    ];
    assert(magic@ =~= sqlite_magic());
    let mut i: usize = 0;
    while i < 16
        invariant
            magic@ == sqlite_magic(),
            bytes@.len() >= 16,
            i <= 16,
            bytes@.subrange(0, i as int) == magic@.subrange(0, i as int),
        decreases 16 - i,
    {
        if bytes[i] != magic[i] {
            assert(bytes@.subrange(0, 16)[i as int] != sqlite_magic()[i as int]);
            return false;
        }
        i = i + 1;
        assert(bytes@.subrange(0, i as int) =~= magic@.subrange(0, i as int));
    }
    assert(magic@.subrange(0, 16) =~= magic@);
    true
}

impl DbHeader {
    /// Reads the header at the start of `bytes`: at least 100 bytes, the
    /// magic string, and a valid page size.
    pub fn parse_from(bytes: &[u8]) -> (r: Result<Self, Error>)
        ensures
            match db_header_of(bytes@) {
                Ok(raw) => r matches Ok(h) && h.page_size == raw && h.raw@ == bytes@.subrange(
                    0,
                    100,
                ),
                Err(e) => r == Err::<Self, Error>(e),
            },
    {
        if bytes.len() < 100 {
            return Err(Error::TooSmallForHeader);
        }
        if !magic_matches(bytes) {
            return Err(Error::InvalidMagic);
        }
        let raw_size = bytes[16] as u16 * 256 + bytes[17] as u16;
        if !(raw_size == 1 || raw_size == 512 || raw_size == 1024 || raw_size == 2048 || raw_size
            == 4096 || raw_size == 8192 || raw_size == 16384 || raw_size == 32768) {
            return Err(Error::InvalidPageSize { raw: raw_size });
        }
        let mut raw: Vec<u8> = Vec::new();
        let mut i: usize = 0;
        while i < 100
            invariant
                bytes@.len() >= 100,
                i <= 100,
                raw@ == bytes@.subrange(0, i as int),
            decreases 100 - i,
        {
            raw.push(bytes[i]);
            i = i + 1;
            assert(raw@ =~= bytes@.subrange(0, i as int));
        }
        Ok(DbHeader { page_size: raw_size, raw })
    }

    /// The page size in bytes.
    pub fn page_size_bytes(&self) -> (r: usize)
        requires
            valid_page_size(self.page_size),
        ensures
            r == page_size_of(self.page_size),
    {
        if self.page_size == 1 {
            65536
        } else {
            self.page_size as usize
        }
    }
}

/// The catalog page that opening `image` finds, or why opening fails.
pub open spec fn opened_catalog(image: Seq<u8>) -> Result<crate::catalog::RootPageView, Error> {
    match db_header_of(image) {
        Err(e) => Err(e),
        Ok(raw) => if image.len() < page_size_of(raw) {
            Err(Error::TooSmallForFirstPage)
        } else {
            catalog_page_of(image.subrange(DATABASE_HEADER_SIZE as int, page_size_of(raw) as int))
        },
    }
}

/// The last component of a `/`-separated path: what follows the last `/`.
pub open spec fn file_name_of(path: Seq<char>) -> Seq<char> {
    path.subrange(after_last_slash(path, path.len() as int), path.len() as int)
}

/// Index just after the last `/` among the first `i` characters, or 0.
pub open spec fn after_last_slash(path: Seq<char>, i: int) -> int
    decreases i,
{
    if i <= 0 {
        0
    } else if path[i - 1] == '/' {
        i
    } else {
        after_last_slash(path, i - 1)
    }
}

/// An open database: the image behind its pager, its header, and its
/// catalog page, read once.
pub struct Sqlite {
    pub pager: Pager,
    pub file_path: String,
    pub header: DbHeader,
    pub schema_page: RootPage,
}

impl Sqlite {
    /// The well-formedness that `open` establishes.
    pub open spec fn wf(&self) -> bool {
        &&& valid_page_size(self.header.page_size)
        &&& self.pager.page_size == page_size_of(self.header.page_size)
        &&& opened_catalog(self.pager.input@) == Ok::<crate::catalog::RootPageView, Error>(
            self.schema_page@,
        )
        &&& db_header_of(self.pager.input@) == Ok::<u16, Error>(self.header.page_size)
    }

    /// Opens the database whose file, at `file_path`, holds `image`: reads the
    /// header (the magic string is checked before any page is read), then
    /// page 1 as the schema catalog.
    pub fn open(file_path: String, image: Vec<u8>) -> (r: Result<Self, Error>)
        ensures
            match opened_catalog(image@) {
                Ok(catalog) => r matches Ok(db) && db.wf() && db.schema_page@ == catalog
                    && db.pager.input@ == image@ && db.file_path@ == file_path@,
                Err(e) => r == Err::<Self, Error>(e),
            },
    {
        let header = match DbHeader::parse_from(image.as_slice()) {
            Ok(h) => h,
            Err(e) => return Err(e),
        };
        let page_size = header.page_size_bytes();
        if image.len() < page_size {
            return Err(Error::TooSmallForFirstPage);
        }
        let mut first: Vec<u8> = Vec::new();
        let mut i: usize = 100;
        while i < page_size
            invariant
                100 <= page_size <= image@.len(),
                100 <= i <= page_size,
                first@ == image@.subrange(100, i as int),
            decreases page_size - i,
        {
            first.push(image[i]);
            i = i + 1;
            assert(first@ =~= image@.subrange(100, i as int));
        }
        let schema_page = match RootPage::init(first) {
            Ok(p) => p,
            Err(e) => return Err(e),
        };
        Ok(Sqlite { pager: Pager::new(image, page_size), file_path, header, schema_page })
    }

    /// The name of the database file: the last component of its path.
    pub fn file_name(&self) -> (r: String)
        ensures
            r@ == file_name_of(self.file_path@),
    {
        let path = self.file_path.as_str();
        let n = path.unicode_len();
        let mut i: usize = n;
        while i > 0 && path.get_char(i - 1) != '/'
            invariant
                n == path@.len(),
                path@ == self.file_path@,
                i <= n,
                after_last_slash(path@, n as int) == after_last_slash(path@, i as int),
            decreases i,
        {
            i = i - 1;
        }
        path.substring_char(i, n).to_owned()
    }

    /// The page size field of the header: 1 stands for 65536.
    pub fn page_size(&self) -> (r: u16)
        ensures
            r == self.header.page_size,
    {
        self.header.page_size
    }

    /// Number of catalog rows.
    pub fn table_count(&self) -> (r: u16)
        ensures
            r == self.schema_page@.cell_count,
    {
        self.schema_page.table_count()
    }

    /// Names of the tables, in catalog order.
    pub fn table_names(&self) -> (r: Result<Vec<String>, Error>)
        ensures
            names_view(r) == catalog_table_names(
                self.schema_page@.buffer,
                self.schema_page@.cell_pointers,
            ),
    {
        self.schema_page.table_names()
    }

    /// Reads page `page_number` (counted from 1) of the database.
    pub fn load_page(&self, page_number: u64) -> (r: Result<Vec<u8>, Error>)
        ensures
            match page_bytes(self.pager.input@, self.pager.page_size as nat, page_number) {
                Ok(b) => r matches Ok(v) && v@ == b,
                Err(e) => r == Err::<Vec<u8>, Error>(e),
            },
    {
        let number = match PageNumber::new(page_number) {
            Ok(n) => n,
            Err(_) => return Err(Error::InvalidPageNumber { value: 0 }),
        };
        let mut buffer: Vec<u8> = Vec::new();
        let mut i: usize = 0;
        while i < self.pager.page_size
            invariant
                i <= self.pager.page_size,
                buffer@.len() == i,
            decreases self.pager.page_size - i,
        {
            buffer.push(0);
            i = i + 1;
        }
        match self.pager.read(number, &mut buffer) {
            Ok(()) => Ok(buffer),
            Err(e) => Err(e),
        }
    }
}

} // verus!
