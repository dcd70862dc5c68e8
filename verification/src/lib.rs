//! The logic of a desktop mail client: what it makes of the messages that it receives, what it asks of
//! mail servers and of its database, and what it sends.
//!
//! The library does no input or output. Where the work alternates with a server or the database, a
//! type stands for the work under way: it says what to do next and takes what came of it.

// Texts, names and addresses.
pub mod text;
pub mod order;
pub mod encoding;
pub mod utf7;
pub mod filenames;
pub mod addresses;

// The database.
pub mod schema;
pub mod statements;
pub mod accounts;
pub mod emails;

// Receiving.
pub mod message;
pub mod store;
pub mod imap;
pub mod sync;
pub mod purge;
pub mod folders;
pub mod moving;

// Attachments.
pub mod archive;
pub mod attachments;

// Sending.
pub mod send;

// The address book.
pub mod contacts;
pub mod address_book;

// The program.
pub mod backup;
pub mod notify;
pub mod startup;

// What the statements of all these do to the database.
pub mod sql;
pub mod tables;
pub mod mail_records;
pub mod book_records;
pub mod listing;

// What holds of the library as a whole.
pub mod letters;
pub mod naming;
pub mod reading;
pub mod receiving;
pub mod protocol;
pub mod sending;
pub mod contact_files;
pub mod upkeep;
