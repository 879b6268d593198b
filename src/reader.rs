use vstd::prelude::*;

use crate::error::Error;
use crate::exif::Exif;
use crate::tiff::{exif_spec, Parse, Parser};

verus! {

/// Parses Exif attributes and builds an `Exif` that holds the results.
pub struct Reader {}

impl Reader {
    /// Constructs a new `Reader`.
    pub fn new() -> Self {
        Reader {}
    }

    /// Parses the Exif attributes from raw Exif data (TIFF data).
    pub fn read_raw(&self, data: Vec<u8>) -> (r: Result<Exif, Error>)
        ensures
            match exif_spec(data@) {
                Ok((fs, le)) => r is Ok && r->Ok_0.fields_spec() == fs && r->Ok_0.le_spec() == le
                    && r->Ok_0.buf_spec() == data@,
                Err(e) => r == Err::<Exif, Error>(e),
            },
    {
        let mut parser = Parser::default();
        match parser.parse(data.as_slice()) {
            Ok(()) => {},
            Err(e) => return Err(e),
        }
        let le = parser.little_endian;
        assert(forall|k: int|
            0 <= k < parser.entries@.len() ==> #[trigger] parser.entries@[k].wf(data@));
        Ok(Exif::from_entries(data, parser.entries, le))
    }
}

} // verus!
