//! QR codes.

use vstd::prelude::*;

use crate::outside::{qr_image, qr_outcome, qr_png, QrFailure, QrFailureModel};
use crate::text::chars::parts_stand_at_the_ends;

verus! {

impl QrFailureModel {
    /// What is said of a failure.
    pub open spec fn text(self) -> Seq<char> {
        match self {
            QrFailureModel::Payload(cause) => "invalid QR payload: "@ + cause,
            QrFailureModel::Encoding(cause) => "failed to encode PNG: "@ + cause,
        }
    }
}

/// What is said of a failure says what could not be done, and ends in the reason.
pub proof fn failure_ends_in_its_reason(cause: Seq<char>)
    ensures
        "invalid QR payload: "@.is_prefix_of(QrFailureModel::Payload(cause).text()),
        cause.is_suffix_of(QrFailureModel::Payload(cause).text()),
        QrFailureModel::Payload(cause).text().len() == 20 + cause.len(),
        "failed to encode PNG: "@.is_prefix_of(QrFailureModel::Encoding(cause).text()),
        cause.is_suffix_of(QrFailureModel::Encoding(cause).text()),
        QrFailureModel::Encoding(cause).text().len() == 22 + cause.len(),
{
    reveal_strlit("invalid QR payload: ");
    reveal_strlit("failed to encode PNG: ");
    parts_stand_at_the_ends("invalid QR payload: "@, cause, cause);
    parts_stand_at_the_ends("failed to encode PNG: "@, cause, cause);
}

impl QrFailure {
    /// What is said of a failure.
    pub fn message(&self) -> (r: String)
        ensures
            r@ == self@.text(),
    {
        match self {
            QrFailure::Payload(cause) => {
                let mut text = "invalid QR payload: ".to_string();
                text.append(cause);
                text
            },
            QrFailure::Encoding(cause) => {
                let mut text = "failed to encode PNG: ".to_string();
                text.append(cause);
                text
            },
        }
    }
}

/// The PNG image of a QR code for the content.
pub fn render_qr_png(content: &str) -> (r: Result<Vec<u8>, QrFailure>)
    ensures
        qr_outcome(r) == qr_png(content@),
{
    qr_image(content)
}

} // verus!
