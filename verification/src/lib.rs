//! A toy racing-season library: a fixed catalog of drivers, cars and teams,
//! session scoring with a random perturbation, and a ranking engine with
//! qualification tiers and DNF-aware race ordering.

pub mod car;
pub mod catalog;
pub mod driver;
pub mod race_result;
pub mod ranking;
pub mod scoring;
pub mod session;
pub mod team;
pub mod text;

pub use car::Car;
pub use driver::Driver;
pub use race_result::RaceResult;
pub use team::Team;
