pub mod init;
pub mod jump_to_branch;
pub mod jump_to_commit;
pub mod log;
pub mod merge;
pub mod new_branch;
pub mod new_commit;
pub mod status;
