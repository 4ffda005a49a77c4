//! The operations behind the command line: what each one decides, given
//! what was found on disk.

pub mod init_course;
pub mod init_exercise;
pub mod study;
