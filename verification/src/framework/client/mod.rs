pub mod blocking_api;
