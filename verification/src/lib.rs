pub mod address;
pub mod event;
pub mod channel;
pub mod payload;
pub mod protocol;
pub mod registry;
pub mod reader;
pub mod acceptor;
pub mod handler;
pub mod pong;
pub mod ping;
pub mod bundle;
pub mod tick;

pub use acceptor::TcpConnectionListenerSystem;
pub use address::Address;
pub use bundle::TcpSystemBundle;
pub use event::NetworkEvent;
pub use handler::TcpNetworkEventHandlerSystem;
pub use ping::Ping;
pub use pong::PongSystemBundle;
pub use reader::TcpNetworkListenerSystem;
pub use registry::NetworkResource;
