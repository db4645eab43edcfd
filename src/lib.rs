pub mod config;
pub mod confirmation;
pub mod credentials;
pub mod dispatch;
pub mod email;
pub mod name;
pub mod new_subscriber;
pub mod registration;
pub mod store;
mod text;
pub mod token;

pub use email::SubscriberEmail;
pub use name::SubscriberName;
pub use new_subscriber::{FormData, NewSubscriber};
