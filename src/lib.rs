//! Step through a MIDI performance bar by bar: cut the timeline into bars,
//! move a cursor over them, work out the notes that sound, and decide what
//! the runtime plays for each command.
pub mod bar;
pub mod device;
pub mod event;
pub mod keys;
pub mod note;
pub mod player;
pub mod sheet;
pub mod track;

pub use note::{moment_notes, Note, NoteStyle, style, toggle_style};
pub use player::{Action, Command, Notes, Playback, Player, Response, State};
