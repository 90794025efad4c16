//! The named PSO and SHADE algorithms, assembled from stages.
pub mod pso;
pub mod pso_gpgm;
pub mod pso_random_restarts;
pub mod pso_rr;
pub mod pso_stepped_leader;
pub mod shade;
