//! Volumetric scan model: storage, streaming decode, plane extraction and
//! display parameters, with contracts proved for every input.

pub mod display_window;
pub mod nifti;
pub mod nifti_reader;
pub mod nifti_slice;
pub mod params;
pub mod session;
pub mod texture;
pub mod volume;
