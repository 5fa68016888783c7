//! Page numbers and the pager, which cuts fixed-size pages out of the
//! database image.
use vstd::prelude::*;

use crate::error::Error;

verus! {

/// The pager refuses page numbers whose end would lie beyond 100 MiB: a
/// guard against corrupt page arithmetic, not a limit on real files.
pub const PAGE_CEILING: u64 = 100 * 1024 * 1024;

/// A 1-based page number.
#[derive(Debug, Clone, Copy, PartialEq, Eq, PartialOrd, Ord, Hash)]
pub struct PageNumber(u64);

impl View for PageNumber {
    type V = u64;

    closed spec fn view(&self) -> u64 {
        self.0
    }
}

impl PageNumber {
    #[verifier::type_invariant]
    closed spec fn positive(self) -> bool {
        self.0 > 0
    }

    /// A page number; zero is refused, since pages count from one.
    pub fn new(value: u64) -> (r: Result<Self, String>)
        ensures
            r is Ok <==> value > 0,
            r matches Ok(p) ==> p@ == value,
    {
        if value > 0 {
            Ok(PageNumber(value))
        } else {
            Err("Page number must be greater than 0".to_owned())
        }
    }

    pub fn value(&self) -> (r: u64)
        ensures
            r == self@,
            r > 0,
    {
        proof {
            use_type_invariant(self);
        }
        self.0
    }
}

/// The bytes of page `n` of `image` with pages of `page_size` bytes.
pub open spec fn page_bytes(image: Seq<u8>, page_size: nat, n: u64) -> Result<Seq<u8>, Error> {
    if n == 0 {
        Err(Error::InvalidPageNumber { value: 0 })
    } else if n * page_size > PAGE_CEILING {
        Err(Error::PageOutOfRange { page: n })
    } else if n * page_size > image.len() {
        Err(Error::UnexpectedEndOfFile { page: n })
    } else {
        Ok(image.subrange((n - 1) * page_size, n * page_size))
    }
}

/// What reading page `n` into a buffer of `buf_len` bytes gives: the
/// ceiling is checked first, then the buffer's length, then the file's.
pub open spec fn read_outcome(image: Seq<u8>, page_size: usize, n: u64, buf_len: nat) -> Result<
    Seq<u8>,
    Error,
> {
    if n * page_size > PAGE_CEILING {
        Err(Error::PageOutOfRange { page: n })
    } else if buf_len != page_size {
        Err(Error::BufferSizeMismatch { expected: page_size, found: buf_len as usize })
    } else {
        page_bytes(image, page_size as nat, n)
    }
}

/// Hands out pages of the database image; nothing is cached.
#[derive(PartialEq, Debug)]
pub struct Pager {
    /// The whole database file.
    pub input: Vec<u8>,
    pub page_size: usize,
}

impl Pager {
    pub fn new(input: Vec<u8>, page_size: usize) -> (r: Self)
        ensures
            r.input@ == input@,
            r.page_size == page_size,
    {
        Self { input, page_size }
    }

    /// Fails when page `page_number` would end beyond the 100 MiB ceiling.
    fn guard_outbound_page(&self, page_number: PageNumber) -> (r: Result<(), Error>)
        ensures
            r is Ok <==> page_number@ * self.page_size <= PAGE_CEILING,
            r matches Err(e) ==> e == (Error::PageOutOfRange { page: page_number@ }),
    {
        let n = page_number.value();
        let size = self.page_size as u64;
        proof {
            assert((n as int) * (size as int) <= 0xffff_ffff_ffff_ffff * 0xffff_ffff_ffff_ffff)
                by (nonlinear_arith)
                requires
                    n <= 0xffff_ffff_ffff_ffff,
                    size <= 0xffff_ffff_ffff_ffff,
            ;
        }
        if (n as u128) * (size as u128) > PAGE_CEILING as u128 {
            Err(Error::PageOutOfRange { page: n })
        } else {
            Ok(())
        }
    }

    /// Reads page `page_number` into `buf`, which must be one page long.
    /// Page `n` is the `page_size` bytes from offset `(n - 1) * page_size`.
    pub fn read(&self, page_number: PageNumber, buf: &mut Vec<u8>) -> (r: Result<(), Error>)
        ensures
            match read_outcome(self.input@, self.page_size, page_number@, old(buf)@.len()) {
                Ok(bytes) => r is Ok && final(buf)@ == bytes,
                Err(e) => r == Err::<(), Error>(e) && final(buf)@ == old(buf)@,
            },
    {
        let ghost n = page_number@;
        let number = page_number.value();
        match self.guard_outbound_page(page_number) {
            Ok(()) => {},
            Err(e) => return Err(e),
        }
        if buf.len() != self.page_size {
            return Err(Error::BufferSizeMismatch { expected: self.page_size, found: buf.len() });
        }
        let size = self.page_size;
        proof {
            assert((number - 1) * size + size == number * size) by (nonlinear_arith)
                requires
                    number >= 1,
            ;
            assert((number - 1) * size <= number * size) by (nonlinear_arith)
                requires
                    number >= 1,
            ;
        }
        let start = ((number - 1) * (size as u64)) as usize;
        if start > self.input.len() || size > self.input.len() - start {
            return Err(Error::UnexpectedEndOfFile { page: number });
        }
        let mut page: Vec<u8> = Vec::new();
        let mut i: usize = 0;
        while i < size
            invariant
                start + size <= self.input.len(),
                i <= size,
                page@ == self.input@.subrange(start as int, start + i),
            decreases size - i,
        {
            page.push(self.input[start + i]);
            i = i + 1;
            assert(page@ =~= self.input@.subrange(start as int, start + i));
        }
        *buf = page;
        Ok(())
    }
}

} // verus!
