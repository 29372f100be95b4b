//! `AI_APP` weights table image and its cFE Table Services file wrapper.

pub mod cfe_tbl_file;
pub mod golden;
pub mod mission_dims;
pub mod table_image;
