pub mod purge_cache;
