pub mod models;
pub mod repository;
pub mod validator;

pub use models::ExecutionMode;
pub use models::StartupCommand;
pub use models::StartupEntry;
pub use repository::ProcessControl;
pub use repository::ScriptStore;
pub use repository::StartupRepository;
pub use validator::StartupValidator;
