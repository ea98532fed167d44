pub mod operation_hash;
pub mod text;
pub mod work_with_commit_files;
