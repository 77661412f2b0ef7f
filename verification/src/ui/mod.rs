//! What the user interface shows and asks for.

pub mod app;
pub mod controller;
pub mod dispatcher;
pub mod inbox;
pub mod msg_list;
pub mod port;

pub use app::Request;
pub use controller::Controller;
pub use dispatcher::Dispatcher;
pub use msg_list::MsgListPanel;
pub use port::PortsPanel;
