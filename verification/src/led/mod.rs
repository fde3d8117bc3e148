pub mod blue_shift;
