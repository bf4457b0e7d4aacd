//! Writing an encoded image to a named sink.
use vstd::prelude::*;
use vstd::string::*;
use crate::ppm::PpmWrapper;
use crate::text::{decimal, push_decimal};

verus! {

/// std's I/O error, carried through unchanged from a sink to the caller.
#[verifier::external_type_specification]
#[verifier::external_body]
pub struct ExIoError(std::io::Error);

/// A destination that can be opened by name and written to.
pub trait Writable {
    fn open(filename: String) -> Result<Self, std::io::Error> where Self: Sized;

    fn write_all(&mut self, buf: &[u8]) -> Result<(), std::io::Error>;
}

/// `<width>_<height>_<stamp>.ppm`
pub open spec fn filename_text(width: nat, height: nat, stamp: Seq<char>) -> Seq<char> {
    decimal(width) + "_"@ + decimal(height) + "_"@ + stamp + ".ppm"@
}

/// How the local time is written in a default file name.
pub const TIMESTAMP_FORMAT: &'static str = "%Y%m%d%H%M%S";

/// Relies on chrono's Local::now and DateTime::format: the local time of the
/// call written with the strftime-style `fmt`. Nothing is claimed of the time
/// itself. An invalid format makes the formatting fail and `to_string` panic,
/// so only the format used here is admitted.
#[verifier::external_body]
fn local_time_formatted(fmt: &str) -> String
    requires
        fmt@ == TIMESTAMP_FORMAT@,
{
    chrono::Local::now().format(fmt).to_string()
}

/// The file name for an image of the given size taken at `stamp`.
pub fn filename_with_stamp(width: usize, height: usize, stamp: &str) -> (r: String)
    ensures
        r@ == filename_text(width as nat, height as nat, stamp@),
{
    let mut name = String::new();
    push_decimal(&mut name, width);
    name.append("_");
    push_decimal(&mut name, height);
    name.append("_");
    name.append(stamp);
    name.append(".ppm");
    assert(name@ =~= filename_text(width as nat, height as nat, stamp@));
    name
}

/// The file name used when none is given: the image size and the local time.
pub fn generate_default_filename(p: &PpmWrapper) -> (r: String)
    ensures
        exists|stamp: Seq<char>|
            r@ == filename_text(
                p.spec_canvas().spec_width(),
                p.spec_canvas().spec_height(),
                stamp,
            ),
{
    let stamp = local_time_formatted(TIMESTAMP_FORMAT);
    filename_with_stamp(p.width(), p.height(), stamp.as_str())
}

/// Opens `filename` (or the default name) on `W` and writes the whole PPM text
/// to it; the first error of either step is returned.
pub fn save_ppm_to_file<W: Writable>(ppm_wrapper: &PpmWrapper, filename: Option<String>) -> (r:
    Result<(), std::io::Error>)
    requires
        ppm_wrapper.wf(),
{
    let filename = match filename {
        Some(name) => name,
        None => generate_default_filename(ppm_wrapper),
    };
    let mut file = match W::open(filename) {
        Ok(f) => f,
        Err(e) => {
            return Err(e);
        },
    };
    let text = ppm_wrapper.to_ppm();
    file.write_all(text.as_str().as_bytes())
}

} // verus!
