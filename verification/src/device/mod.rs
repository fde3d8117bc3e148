pub mod moza_led;
