//! Availability monitoring and sniping engine for Minecraft usernames:
//! the rules that decide which name to probe next, how a probe's reply is
//! read, how a verdict changes the stored record, how snipe workers phase
//! their requests, and how the Microsoft/Xbox/Mojang token chain is fed and
//! cached.
pub mod account;
pub mod clock;
pub mod models;
pub mod names;
pub mod ring;
pub mod screener;
pub mod snipe;
pub mod source;
pub mod status;
pub mod text;
pub mod token;
pub mod worker;

pub use account::{Account, MinecraftResponse};
pub use models::{AccountData, Like, Proxy, ProxyData, User};
pub use names::{Name, NameTable, Tier};
pub use ring::ClientRing;
pub use snipe::{CreateSnipeOptions, CreateSnipeResponse, Snipe, SnipeSlot, SnipeTable};
pub use source::{HighPrioritySource, LowPrioritySource, MediumPrioritySource, WorkBuffers, WorkSource};
pub use status::Status;
pub use token::{
    Credentials, JavaData, JavaPayload, JavaResponse, LogUserQuery, LogUserResponse, PreAuthData,
    RpsTicketPayload, RpsTicketPayloadProperties, RpsTicketResponse, XstsData, XstsDisplayClaims,
    XstsPayload, XstsPayloadProperties, XstsResponse, XstsXui,
};
