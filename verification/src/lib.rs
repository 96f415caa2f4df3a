//! A dotfile tracker: files are relocated into a storage directory and a
//! symbolic link takes their place, or a plain copy is made.
//!
//! The crate holds the two parts that carry the rules. The command line is
//! interpreted in [`args`] and resolved in [`resolve`] to what it asks for
//! ([`options`]). The relocation engine decides what is done to the
//! filesystem, one action at a time ([`action`]): the recursive copy of a tree
//! in [`walk`], the relocation of one file in [`file`], the run over all the
//! files of a request in [`dispatch`]. The engine makes no filesystem call
//! itself: its caller performs each action and reports what happened.
//!
//! What holds of every command line is proved in [`laws`], what a walk does
//! on a tree in [`tree`], and what a whole run asks for in [`course`].

pub mod action;
pub mod args;
pub mod course;
pub mod dispatch;
pub mod error;
pub mod file;
pub mod laws;
pub mod options;
pub mod resolve;
pub mod text;
pub mod tree;
pub mod walk;
