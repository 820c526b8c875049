//! Terminal network toolkit: port-scan planning and bookkeeping, raw TCP SYN
//! packet construction and classification, a GeoIP lookup page with an editable
//! input line, and the menu and routing rules of the terminal interface.
pub mod draw;
pub mod event;
pub mod pages;
pub mod route;
pub mod sort;
pub mod text;
