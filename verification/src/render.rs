//! Text that outside crates render: box-drawn tables (tabled) and terminal
//! QR codes (qrcode).
use vstd::prelude::*;
use tabled::builder::Builder;
use tabled::settings::Style;
use qrcode::QrCode;
use qrcode::render::unicode;

verus! {

/// The text of a table with the given rows (the first row being the header)
/// in tabled's "modern" style, a function of the cell texts alone.
pub uninterp spec fn table_text(rows: Seq<Seq<Seq<char>>>) -> Seq<char>;

/// The texts of a row's cells.
pub open spec fn cells(row: Vec<String>) -> Seq<Seq<char>> {
    Seq::new(row@.len(), |j: int| row@[j]@)
}

/// The views of table rows.
pub open spec fn rows_view(rows: Seq<Vec<String>>) -> Seq<Seq<Seq<char>>> {
    Seq::new(rows.len(), |i: int| cells(rows[i]))
}

/// tabled's `Builder::from(rows).build().with(Style::modern()).to_string()`:
/// the result is named by [`table_text`]; nothing more is claimed about it.
#[verifier::external_body]
pub(crate) fn render_table(rows: Vec<Vec<String>>) -> (r: String)
    ensures
        r@ == table_text(rows_view(rows@)),
{
    Builder::from(rows).build().with(Style::modern()).to_string()
}

/// The dense Unicode rendering (with quiet zone) of a QR code holding the
/// bytes of `url`, or `None` when qrcode cannot encode them; a function of the
/// text alone.
pub uninterp spec fn qr_text(url: Seq<char>) -> Option<Seq<char>>;

/// qrcode's `QrCode::new(url.as_bytes())` rendered with
/// `render::<unicode::Dense1x2>().quiet_zone(true).build()`: the result is
/// named by [`qr_text`]; nothing more is claimed about it.
#[verifier::external_body]
pub(crate) fn render_qr(url: &str) -> (r: Option<String>)
    ensures
        match r {
            Some(s) => qr_text(url@) == Some(s@),
            None => qr_text(url@) is None,
        },
{
    match QrCode::new(url.as_bytes()) {
        Ok(code) => Some(code.render::<unicode::Dense1x2>().quiet_zone(true).build()),
        Err(_) => None,
    }
}

} // verus!
