//! Common code for the command line tools that manage a Bufkit sounding archive.

pub mod archive;
pub mod climo;
pub mod download;
pub mod fire;
pub mod generator;
pub mod inventory;
pub mod model;
mod ordering;
pub mod site;
pub mod sources;
pub mod table_printer;
pub mod text;
pub mod time;
pub mod util;
pub mod wrap;

pub use crate::download::StepResult;
pub use crate::model::Model;
pub use crate::site::{SiteInfo, StationNumber};
pub use crate::sources::{IowaState, ReqInfo, Source};
pub use crate::table_printer::TablePrinter;
pub use crate::time::{parse_date_string, CivilTime, Timestamp};
pub use crate::util::{site_id_to_station_num, StrErr};
