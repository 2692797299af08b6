//! The acknowledgement bookkeeping under its alternative spelling.
pub use crate::acknowledgement::Acknowledgement as Acknowledgment;
pub use crate::acknowledgement::AcknowledgementCheck as AcknowledgmentCheck;
pub use crate::acknowledgement::AcknowledgementList as AcknowledgmentList;
pub use crate::acknowledgement::MAX_WINDOW;
