//! Client-side building blocks of the TPM2 command protocol: a big-endian
//! structured codec over a wire buffer, command/response framing, and the
//! chunked PCR read protocol that splits an oversized register selection
//! into capacity-bounded exchanges and merges the partial results.

pub mod algid;
pub mod codec;
pub mod commands;
pub mod errors;
pub mod pcrread;
pub mod pcrs;
pub mod run;
pub mod st;
pub mod tcg;
pub mod wire;
