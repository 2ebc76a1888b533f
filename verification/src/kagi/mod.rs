pub mod client;
pub mod html;
pub mod mapper;
pub mod stream;

pub use client::{KagiModel, KagiSession, StreamEvent};
pub use mapper::{
    KagiChoice, KagiDelta, KagiMessage, KagiMessageContent, KagiRequest, KagiResponse, KagiUsage,
};
