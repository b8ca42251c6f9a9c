//! Where the SHPLONK generator reads and writes.

use vstd::prelude::*;

verus! {

/// Where the SHPLONK generator reads its templates and writes the verifier
/// sources, as paths relative to the repository root.
#[derive(Clone, Debug)]
pub struct AxiomShplonkOutputPaths {
    pub aiken_template: String,
    pub aiken_output: String,
    pub aiken_vk_template: String,
    pub aiken_vk_output: String,
    pub plinth_template: String,
    pub plinth_output: String,
    pub plinth_test_template: String,
    pub plinth_test_output: String,
    pub plinth_test_main_template: String,
    pub plinth_test_main_output: String,
    pub plinth_haskell_test_template: String,
    pub plinth_haskell_test_output: String,
    pub plinth_compiled_stub_template: String,
    pub plinth_compiled_stub_output: String,
}

impl Default for AxiomShplonkOutputPaths {
    /// The locations inside the repository.
    fn default() -> (p: Self)
        ensures
            p.aiken_template@ == "aiken-verifier/templates/axiom_shplonk.hbs"@,
            p.aiken_output@ == "aiken-verifier/aiken_halo2/lib/proof_verifier.ak"@,
            p.aiken_vk_template@ == "aiken-verifier/templates/axiom_verifier_key_stub.hbs"@,
            p.aiken_vk_output@ == "aiken-verifier/aiken_halo2/lib/verifier_key.ak"@,
            p.plinth_template@ == "plinth-verifier/templates/axiom_shplonk.hbs"@,
            p.plinth_output@ == "plinth-verifier/plutus-halo2/src/Plutus/Crypto/Halo2/Generic/Verifier.hs"@,
            p.plinth_test_template@ == "plinth-verifier/templates/axiom_proof_test.hbs"@,
            p.plinth_test_output@ == "plinth-verifier/plutus-halo2/test/Generic/VerificationTestPlutus.hs"@,
            p.plinth_test_main_template@ == "plinth-verifier/templates/axiom_proof_test_main.hbs"@,
            p.plinth_test_main_output@ == "plinth-verifier/plutus-halo2/test/Test.hs"@,
            p.plinth_haskell_test_template@ == "plinth-verifier/templates/axiom_proof_test_haskell.hbs"@,
            p.plinth_haskell_test_output@ == "plinth-verifier/plutus-halo2/test/Generic/VerificationTestHaskell.hs"@,
            p.plinth_compiled_stub_template@ == "plinth-verifier/templates/axiom_verify_compiled_stub.hbs"@,
            p.plinth_compiled_stub_output@ == "plinth-verifier/plutus-halo2/test/Generic/VerifyCompiled.hs"@,
    {
        AxiomShplonkOutputPaths {
            aiken_template: String::from_str("aiken-verifier/templates/axiom_shplonk.hbs"),
            aiken_output: String::from_str("aiken-verifier/aiken_halo2/lib/proof_verifier.ak"),
            aiken_vk_template: String::from_str("aiken-verifier/templates/axiom_verifier_key_stub.hbs"),
            aiken_vk_output: String::from_str("aiken-verifier/aiken_halo2/lib/verifier_key.ak"),
            plinth_template: String::from_str("plinth-verifier/templates/axiom_shplonk.hbs"),
            plinth_output: String::from_str("plinth-verifier/plutus-halo2/src/Plutus/Crypto/Halo2/Generic/Verifier.hs"),
            plinth_test_template: String::from_str("plinth-verifier/templates/axiom_proof_test.hbs"),
            plinth_test_output: String::from_str("plinth-verifier/plutus-halo2/test/Generic/VerificationTestPlutus.hs"),
            plinth_test_main_template: String::from_str("plinth-verifier/templates/axiom_proof_test_main.hbs"),
            plinth_test_main_output: String::from_str("plinth-verifier/plutus-halo2/test/Test.hs"),
            plinth_haskell_test_template: String::from_str("plinth-verifier/templates/axiom_proof_test_haskell.hbs"),
            plinth_haskell_test_output: String::from_str("plinth-verifier/plutus-halo2/test/Generic/VerificationTestHaskell.hs"),
            plinth_compiled_stub_template: String::from_str("plinth-verifier/templates/axiom_verify_compiled_stub.hbs"),
            plinth_compiled_stub_output: String::from_str("plinth-verifier/plutus-halo2/test/Generic/VerifyCompiled.hs"),
        }
    }
}

} // verus!
