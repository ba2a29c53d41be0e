//! A chat for the terminal: the rules of its server and the whole of its client, apart
//! from the network, the disk, the sound card and the screen itself.
//!
//! The server is a [`hub`] of rooms, a [`store`] of uploaded files and the talk with one
//! socket, a [`session`]. The client is a [`state`] and a function from a state and
//! something that happened to the next state and what has to be done outside: [`update`].
//! What is seen of it is laid out as spans, lines and areas: [`paper`], [`feed`],
//! [`talk`], [`front`]. Modules named after laws hold what is true of several functions
//! together.

pub mod address;
pub mod answer_laws;
pub mod attach;
pub mod browse;
pub mod chat;
pub mod client_laws;
pub mod clock;
pub mod command_laws;
pub mod console;
pub mod entrance;
pub mod errand_laws;
pub mod errands;
pub mod feed;
pub mod feed_laws;
pub mod files;
pub mod frame;
pub mod front;
pub mod help;
pub mod home;
pub mod home_laws;
pub mod host;
pub mod http;
pub mod hub;
pub mod hub_laws;
pub mod ids;
pub mod input;
pub mod journal;
pub mod key_laws;
pub mod keys;
pub mod line_laws;
pub mod measure_laws;
pub mod news_laws;
pub mod overlay;
pub mod page_laws;
pub mod paper;
pub mod picture;
pub mod protocol;
pub mod quit_laws;
pub mod screen_laws;
pub mod send_laws;
pub mod seqs;
pub mod server_laws;
pub mod session;
pub mod session_laws;
pub mod settings;
pub mod shape_laws;
pub mod state;
pub mod store;
pub mod talk;
pub mod tell_laws;
pub mod text;
pub mod theme;
pub mod update;
pub mod validate;
pub mod view_laws;
pub mod walk;
pub mod wave;
pub mod web_laws;
pub mod width;
pub mod width_laws;
pub mod word_laws;
