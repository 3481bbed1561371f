//! Routes of the forum: the requests they send to the api and the data they show.
pub mod forums;
pub mod forum_content;
