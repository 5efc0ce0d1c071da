//! Decoder for the on-disk page format of InnoDB tablespaces: page framing and
//! checksums, index-page record traversal, row reconstruction and the buffer
//! managers that hand out pinned pages.
pub mod innodb;
