//! Lifecycle control for a "bottle": a PID and mount namespace that runs its
//! own init process and is entered on demand with a shell or a single command.
//!
//! The crate holds the decisions and the text handling; its caller, the
//! driver, performs the system calls. A [`controller::Controller`] is made for
//! one operation and stepped until it asks to finish:
//!
//! ```text
//! let mut controller = Controller::new(request);
//! let mut event = Event::Start;
//! loop {
//!     let action = controller.step(event);
//!     if let Action::Finish(outcome) = action { break outcome; }
//!     event = perform(&action);
//! }
//! ```
//!
//! - [`protocol`]: the actions that the controller asks for and the events
//!   that the driver answers with.
//! - [`machine`]: the lifecycle as a state machine over mathematical values;
//!   [`controller`] runs it, verified step by step against it.
//! - [`laws`]: what holds of every run, whatever the driver answers: the group
//!   id is set before the user id, the privilege is given back before the
//!   end, a caller inside the bottle never enters it again.
//! - [`world`] and [`effects`]: a model of the host, and what whole operations
//!   do to it: backups are written once, a cleanup undoes an init.
//! - [`hosts`], [`environ`], [`locator`], [`probe`], [`launch`], [`chars`],
//!   [`config`]: the virtual hosts file, the saved environment, the choice of
//!   the init among the processes, the probes of the host, the command lines,
//!   text handling, and the settings.
//!
//! Every function here is verified against its contract, with one exception:
//! `chars::push_char`, which appends a character to a `String` with
//! `String::push`, is trusted; its contract is believed and not proved. The
//! cleanup powers the init off and waits for it to go before it frees the
//! files.

pub mod chars;
pub mod config;
pub mod controller;
pub mod effects;
pub mod environ;
pub mod hosts;
pub mod launch;
pub mod laws;
pub mod locator;
pub mod machine;
pub mod probe;
pub mod protocol;
pub mod world;
