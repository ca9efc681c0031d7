//! What is done to one image on its way onto a page: measuring it, placing
//! it, and removing its transparency.

pub mod alpha_remover;
pub mod image_reader;
pub mod image_transform;
pub mod image_x_object;
