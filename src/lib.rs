//! Decoding of SNSS files, the binary session and tabs format of a desktop
//! browser: the container header, the length-prefixed command records, and
//! the aligned field grammar of the tab navigation records.

pub mod error;
pub mod laws;
pub mod parser;
pub mod reader;
pub mod session;
pub mod text;
pub mod transition;

pub use error::{Error, ErrorKind};
pub use transition::{PageTransition, PageTransitionQualifiers, PageTransitionType};
pub use parser::{parse, parse_command, parse_tab};
pub use reader::Reader;
pub use session::{Command, Content, SNSS, Tab};
