use vstd::prelude::*;

use crate::text::{
    decimal, decimal_string, holds_text, join, join_spec, lemma_holds_after, lemma_holds_before, lemma_holds_between,
    lemma_holds_inside,
    strings_view, to_uppercase, uppercase,
};

verus! {

pub const FLAVOR_HPP_0: &'static str = "
";
pub const FLAVOR_HPP_1: &'static str = "

namespace proof_system::honk {
namespace flavor {

class ";
pub const FLAVOR_HPP_2: &'static str = "Flavor {
    public: 
        ";
pub const FLAVOR_HPP_3: &'static str = "

        ";
pub const FLAVOR_HPP_4: &'static str = "

        ";
pub const FLAVOR_HPP_5: &'static str = "

        static constexpr bool has_zero_row = true;

    private:
        ";
pub const FLAVOR_HPP_6: &'static str = " 

        ";
pub const FLAVOR_HPP_7: &'static str = "

        ";
pub const FLAVOR_HPP_8: &'static str = "

    
        ";
pub const FLAVOR_HPP_9: &'static str = "


        ";
pub const FLAVOR_HPP_10: &'static str = "

    ";
pub const FLAVOR_HPP_11: &'static str = "

    ";
pub const FLAVOR_HPP_12: &'static str = "

    ";
pub const FLAVOR_HPP_13: &'static str = "
};

} // namespace proof_system::honk::flavor
} // namespace proof_system::honk
    
    
    ";

pub const INCLUDES_0: &'static str = "
#pragma once
#include \"../relation_definitions_fwd.hpp\"
#include \"barretenberg/ecc/curves/bn254/g1.hpp\"
#include \"barretenberg/commitment_schemes/kzg/kzg.hpp\"
#include \"barretenberg/polynomials/barycentric.hpp\"
#include \"barretenberg/polynomials/univariate.hpp\"

#include \"barretenberg/flavor/flavor_macros.hpp\"
#include \"barretenberg/transcript/transcript.hpp\"
#include \"barretenberg/polynomials/evaluation_domain.hpp\"
#include \"barretenberg/polynomials/polynomial.hpp\"
#include \"barretenberg/flavor/flavor.hpp\"
";
pub const INCLUDES_1: &'static str = "
";

pub const RELATION_DEFINITIONS_0: &'static str = "
        using Relations = std::tuple<";
pub const RELATION_DEFINITIONS_1: &'static str = ">;

        static constexpr size_t MAX_PARTIAL_RELATION_LENGTH = compute_max_partial_relation_length<Relations>();

        // BATCHED_RELATION_PARTIAL_LENGTH = algebraic degree of sumcheck relation *after* multiplying by the `pow_zeta`
        // random polynomial e.g. For \\sum(x) [A(x) * B(x) + C(x)] * PowZeta(X), relation length = 2 and random relation
        // length = 3
        static constexpr size_t BATCHED_RELATION_PARTIAL_LENGTH = MAX_PARTIAL_RELATION_LENGTH + 1;
        static constexpr size_t NUM_RELATIONS = std::tuple_size<Relations>::value;

        template <size_t NUM_INSTANCES>
        using ProtogalaxyTupleOfTuplesOfUnivariates =
            decltype(create_protogalaxy_tuple_of_tuples_of_univariates<Relations, NUM_INSTANCES>());
        using SumcheckTupleOfTuplesOfUnivariates = decltype(create_sumcheck_tuple_of_tuples_of_univariates<Relations>());
        using TupleOfArraysOfValues = decltype(create_tuple_of_arrays_of_values<Relations>());
        ";

pub const CONTAINER_SIZES_0: &'static str = "
        static constexpr size_t NUM_PRECOMPUTED_ENTITIES = ";
pub const CONTAINER_SIZES_1: &'static str = "; 
        static constexpr size_t NUM_WITNESS_ENTITIES = ";
pub const CONTAINER_SIZES_2: &'static str = ";
        static constexpr size_t NUM_WIRES = NUM_WITNESS_ENTITIES + NUM_PRECOMPUTED_ENTITIES;
        // We have two copies of the witness entities, so we subtract the number of fixed ones (they have no shift), one for the unshifted and one for the shifted
        static constexpr size_t NUM_ALL_ENTITIES = ";
pub const CONTAINER_SIZES_3: &'static str = ";

    ";

pub const PRECOMPUTED_ENTITIES_0: &'static str = "
        template<typename DataType_>
        class PrecomputedEntities : public PrecomputedEntitiesBase {
            public:
              using DataType = DataType_;

              ";
pub const PRECOMPUTED_ENTITIES_1: &'static str = "

              ";
pub const PRECOMPUTED_ENTITIES_2: &'static str = "
              ";
pub const PRECOMPUTED_ENTITIES_3: &'static str = "
              ";
pub const PRECOMPUTED_ENTITIES_4: &'static str = "
              ";
pub const PRECOMPUTED_ENTITIES_5: &'static str = "
          };
        ";

pub const WITNESS_ENTITIES_0: &'static str = "
        template <typename DataType>
        class WitnessEntities {
            public:

            ";
pub const WITNESS_ENTITIES_1: &'static str = "

            ";
pub const WITNESS_ENTITIES_2: &'static str = " 
            ";
pub const WITNESS_ENTITIES_3: &'static str = " 
        };
        ";

pub const ALL_ENTITIES_0: &'static str = "
        template <typename DataType>
        class AllEntities {
            public:

            ";
pub const ALL_ENTITIES_1: &'static str = "


            ";
pub const ALL_ENTITIES_2: &'static str = "
            ";
pub const ALL_ENTITIES_3: &'static str = "
            ";
pub const ALL_ENTITIES_4: &'static str = "
            ";
pub const ALL_ENTITIES_5: &'static str = "
        };
        ";

pub const POLYNOMIAL_VIEWS_0: &'static str = "
    using ProverPolynomials = AllEntities<PolynomialHandle>;

    using FoldedPolynomials = AllEntities<std::vector<FF>>;

    class AllValues : public AllEntities<FF> {
        public:
          using Base = AllEntities<FF>;
          using Base::Base;
      };
  
    class AllPolynomials : public AllEntities<Polynomial> {
      public:
        [[nodiscard]] size_t get_polynomial_size() const { return this->";
pub const POLYNOMIAL_VIEWS_1: &'static str = ".size(); }
        [[nodiscard]] AllValues get_row(const size_t row_idx) const
        {
            AllValues result;
            for (auto [result_field, polynomial] : zip_view(result.get_all(), get_all())) {
                result_field = polynomial[row_idx];
            }
            return result;
        }
    };


    using RowPolynomials = AllEntities<FF>;

    class PartiallyEvaluatedMultivariates : public AllEntities<Polynomial> {
      public:
        PartiallyEvaluatedMultivariates() = default;
        PartiallyEvaluatedMultivariates(const size_t circuit_size)
        {
            // Storage is only needed after the first partial evaluation, hence polynomials of size (n / 2)
            for (auto& poly : get_all()) {
                poly = Polynomial(circuit_size / 2);
            }
        }
    };

    /**
     * @brief A container for univariates used during Protogalaxy folding and sumcheck.
     * @details During folding and sumcheck, the prover evaluates the relations on these univariates.
     */
    template <size_t LENGTH>
    using ProverUnivariates = AllEntities<barretenberg::Univariate<FF, LENGTH>>;

    /**
     * @brief A container for univariates produced during the hot loop in sumcheck.
     */
    using ExtendedEdges = ProverUnivariates<MAX_PARTIAL_RELATION_LENGTH>;

    ";

pub const COMMITMENT_LABELS_0: &'static str = "
        class CommitmentLabels: public AllEntities<std::string> {
            private:
                using Base = AllEntities<std::string>;


            public:
                CommitmentLabels() : AllEntities<std::string>()
            {
                ";
pub const COMMITMENT_LABELS_1: &'static str = "
            };
        };
        ";

pub const VERIFIER_COMMITMENTS_0: &'static str = "
    class VerifierCommitments : public AllEntities<Commitment> {
      private:
        using Base = AllEntities<Commitment>;

      public:
        VerifierCommitments(const std::shared_ptr<VerificationKey>& verification_key)
        {
            ";
pub const VERIFIER_COMMITMENTS_1: &'static str = "
        }
    };
";

pub const TRANSCRIPT_0: &'static str = "
    class Transcript : public BaseTranscript {
      public:
        uint32_t circuit_size;

        ";
pub const TRANSCRIPT_1: &'static str = "

        std::vector<barretenberg::Univariate<FF, BATCHED_RELATION_PARTIAL_LENGTH>> sumcheck_univariates;
        std::array<FF, NUM_ALL_ENTITIES> sumcheck_evaluations;
        std::vector<Commitment> zm_cq_comms;
        Commitment zm_cq_comm;
        Commitment zm_pi_comm;

        Transcript() = default;

        Transcript(const std::vector<uint8_t>& proof)
            : BaseTranscript(proof)
        {}

        void deserialize_full_transcript()
        {
            size_t num_bytes_read = 0;
            circuit_size = deserialize_from_buffer<uint32_t>(proof_data, num_bytes_read);
            size_t log_n = numeric::get_msb(circuit_size);

            ";
pub const TRANSCRIPT_2: &'static str = "

            for (size_t i = 0; i < log_n; ++i) {
                sumcheck_univariates.emplace_back(
                    deserialize_from_buffer<barretenberg::Univariate<FF, BATCHED_RELATION_PARTIAL_LENGTH>>(
                        Transcript::proof_data, num_bytes_read));
            }
            sumcheck_evaluations = deserialize_from_buffer<std::array<FF, NUM_ALL_ENTITIES>>(
                Transcript::proof_data, num_bytes_read);
            for (size_t i = 0; i < log_n; ++i) {
                zm_cq_comms.push_back(deserialize_from_buffer<Commitment>(proof_data, num_bytes_read));
            }
            zm_cq_comm = deserialize_from_buffer<Commitment>(proof_data, num_bytes_read);
            zm_pi_comm = deserialize_from_buffer<Commitment>(proof_data, num_bytes_read);
        }

        void serialize_full_transcript()
        {
            size_t old_proof_length = proof_data.size();
            Transcript::proof_data.clear();
            size_t log_n = numeric::get_msb(circuit_size);

            serialize_to_buffer(circuit_size, Transcript::proof_data);

            ";
pub const TRANSCRIPT_3: &'static str = "

            for (size_t i = 0; i < log_n; ++i) {
                serialize_to_buffer(sumcheck_univariates[i], Transcript::proof_data);
            }
            serialize_to_buffer(sumcheck_evaluations, Transcript::proof_data);
            for (size_t i = 0; i < log_n; ++i) {
                serialize_to_buffer(zm_cq_comms[i], proof_data);
            }
            serialize_to_buffer(zm_cq_comm, proof_data);
            serialize_to_buffer(zm_pi_comm, proof_data);

            // sanity check to make sure we generate the same length of proof as before.
            ASSERT(proof_data.size() == old_proof_length);
        }
    };
    ";

pub const CLASS_ALIASES: &'static str = "
        using Curve = curve::BN254;
        using G1 = Curve::Group;
        using PCS = pcs::kzg::KZG<Curve>;

        using FF = G1::subgroup_field;
        using Polynomial = barretenberg::Polynomial<FF>;
        using PolynomialHandle = std::span<FF>;
        using GroupElement = G1::element;
        using Commitment = G1::affine_element;
        using CommitmentHandle = G1::affine_element;
        using CommitmentKey = pcs::CommitmentKey<Curve>;
        using VerifierCommitmentKey = pcs::VerifierCommitmentKey<Curve>;
    ";

pub const PROVING_AND_VERIFICATION_KEY: &'static str = "
        public:
        class ProvingKey : public ProvingKey_<PrecomputedEntities<Polynomial>, WitnessEntities<Polynomial>> {
            public:
            // Expose constructors on the base class
            using Base = ProvingKey_<PrecomputedEntities<Polynomial>, WitnessEntities<Polynomial>>;
            using Base::Base;

            // The plookup wires that store plookup read data.
            std::array<PolynomialHandle, 0> get_table_column_wires() { return {}; };
        };

        using VerificationKey = VerificationKey_<PrecomputedEntities<Commitment>>;
    ";

/// `f` applied to each string of `list`, joined with `sep`.
pub open spec fn map_join_spec(
    list: Seq<Seq<char>>,
    sep: Seq<char>,
    f: spec_fn(Seq<char>) -> Seq<char>,
) -> Seq<char> {
    join_spec(list.map_values(f), sep)
}

/// Applies `transformation` to each string of `list` and joins the results
/// with `sep`; `g` states what `transformation` gives.
fn map_join<F: Fn(&String) -> String>(
    list: &[String],
    sep: &str,
    transformation: F,
    Ghost(g): Ghost<spec_fn(Seq<char>) -> Seq<char>>,
) -> (r: String)
    requires
        forall|x: &String| call_requires(transformation, (x,)),
        forall|x: &String, y: String| call_ensures(transformation, (x,), y) ==> y@ == g(x@),
    ensures
        r@ == map_join_spec(strings_view(list@), sep@, g),
{
    let mut outs: Vec<String> = Vec::new();
    let mut i: usize = 0;
    while i < list.len()
        invariant
            i <= list@.len(),
            outs@.len() == i,
            forall|x: &String| call_requires(transformation, (x,)),
            forall|x: &String, y: String| call_ensures(transformation, (x,), y) ==> y@ == g(x@),
            forall|k: int| 0 <= k < i ==> (#[trigger] outs@[k])@ == g(list@[k]@),
        decreases list@.len() - i,
    {
        let y = transformation(&list[i]);
        outs.push(y);
        i = i + 1;
    }
    assert(strings_view(outs@) =~= strings_view(list@).map_values(g));
    join(outs.as_slice(), sep)
}

/// `transformation` applied to each string of `list`, one result per line.
fn map_with_newline<F: Fn(&String) -> String>(
    list: &[String],
    transformation: F,
    Ghost(g): Ghost<spec_fn(Seq<char>) -> Seq<char>>,
) -> (r: String)
    requires
        forall|x: &String| call_requires(transformation, (x,)),
        forall|x: &String, y: String| call_ensures(transformation, (x,), y) ==> y@ == g(x@),
    ensures
        r@ == map_join_spec(strings_view(list@), "\n"@, g),
{
    map_join(list, "\n", transformation, Ghost(g))
}

/// The include line of one relation file.
pub open spec fn relation_import_text(master_name: Seq<char>, relation: Seq<char>) -> Seq<char> {
    "#include \"barretenberg/relations/generated/"@ + master_name + "/"@ + relation + ".hpp\""@
}

/// The include lines of all relation files.
pub open spec fn relations_imports_text(
    master_name: Seq<char>,
    relations: Seq<Seq<char>>,
) -> Seq<char> {
    map_join_spec(relations, "\n"@, |relation: Seq<char>| relation_import_text(master_name, relation))
}

/// We may have multiple relation files and the flavor needs to import *all* of them
pub fn get_relations_imports(master_name: &str, relation_file_names: &[String]) -> (r: String)
    ensures
        r@ == relations_imports_text(master_name@, strings_view(relation_file_names@)),
{
    let transformation = |relation: &String| -> (line: String)
        ensures
            line@ == relation_import_text(master_name@, relation@),
        {
            let mut line = String::from_str("#include \"barretenberg/relations/generated/");
            line.append(master_name);
            line.append("/");
            line.append(relation.as_str());
            line.append(".hpp\"");
            line
        };
    map_with_newline(
        relation_file_names,
        transformation,
        Ghost(|relation: Seq<char>| relation_import_text(master_name@, relation)),
    )
}

pub open spec fn flavor_includes_text(name: Seq<char>, relations: Seq<Seq<char>>) -> Seq<char> {
    INCLUDES_0@ + relations_imports_text(name, relations) + INCLUDES_1@
}

/// Imports located at the top of the flavor files
pub fn flavor_includes(name: &str, relation_file_names: &[String]) -> (r: String)
    ensures
        r@ == flavor_includes_text(name@, strings_view(relation_file_names@)),
{
    let relation_imports = get_relations_imports(name, relation_file_names);
    let mut r = String::from_str(INCLUDES_0);
    r.append(relation_imports.as_str());
    r.append(INCLUDES_1);
    r
}

/// One entry of the relations tuple.
pub open spec fn relation_entry_text(master_name: Seq<char>, relation: Seq<char>) -> Seq<char> {
    master_name + "_vm::"@ + relation + "<FF>"@
}

pub open spec fn relations_tuple_text(master_name: Seq<char>, relations: Seq<Seq<char>>) -> Seq<
    char,
> {
    map_join_spec(relations, ", "@, |relation: Seq<char>| relation_entry_text(master_name, relation))
}

/// Creates comma separated relations tuple file
pub fn create_relations_tuple(master_name: &str, relation_file_names: &[String]) -> (r: String)
    ensures
        r@ == relations_tuple_text(master_name@, strings_view(relation_file_names@)),
{
    let transformation = |relation: &String| -> (entry: String)
        ensures
            entry@ == relation_entry_text(master_name@, relation@),
        {
            let mut entry = String::from_str(master_name);
            entry.append("_vm::");
            entry.append(relation.as_str());
            entry.append("<FF>");
            entry
        };
    map_join(
        relation_file_names,
        ", ",
        transformation,
        Ghost(|relation: Seq<char>| relation_entry_text(master_name@, relation)),
    )
}

/// Create Class Aliases
///
/// Contains boilerplate defining key characteristics of the flavor class
pub fn create_class_aliases() -> (r: &'static str)
    ensures
        r@ == CLASS_ALIASES@,
{
    CLASS_ALIASES
}

pub open spec fn relation_definitions_text(name: Seq<char>, relations: Seq<Seq<char>>) -> Seq<char> {
    RELATION_DEFINITIONS_0@ + relations_tuple_text(name, relations) + RELATION_DEFINITIONS_1@
}

/// Create relation definitions
///
/// Contains all of the boilerplate code required to generate relation definitions.
/// We instantiate the Relations container, which contains a tuple of all of the separate relation file
/// definitions.
///
/// We then also define some constants, making use of the preprocessor.
pub fn create_relation_definitions(name: &str, relation_file_names: &[String]) -> (r: String)
    ensures
        r@ == relation_definitions_text(name@, strings_view(relation_file_names@)),
{
    // Relations tuple = ns::relation_name_0, ns::relation_name_1, ... ns::relation_name_n (comma speratated)
    let comma_sep_relations = create_relations_tuple(name, relation_file_names);
    let mut r = String::from_str(RELATION_DEFINITIONS_0);
    r.append(comma_sep_relations.as_str());
    r.append(RELATION_DEFINITIONS_1);
    r
}

pub open spec fn container_sizes_text(num_precomputed: nat, num_witness: nat, num_all: nat) -> Seq<
    char,
> {
    CONTAINER_SIZES_0@ + decimal(num_precomputed) + CONTAINER_SIZES_1@ + decimal(num_witness)
        + CONTAINER_SIZES_2@ + decimal(num_all) + CONTAINER_SIZES_3@
}

/// Create the number of columns boilerplate for the flavor file
pub fn container_size_definitions(num_precomputed: usize, num_witness: usize, num_all: usize) -> (r:
    String)
    ensures
        r@ == container_sizes_text(num_precomputed as nat, num_witness as nat, num_all as nat),
{
    let mut r = String::from_str(CONTAINER_SIZES_0);
    r.append(decimal_string(num_precomputed as u64).as_str());
    r.append(CONTAINER_SIZES_1);
    r.append(decimal_string(num_witness as u64).as_str());
    r.append(CONTAINER_SIZES_2);
    r.append(decimal_string(num_all as u64).as_str());
    r.append(CONTAINER_SIZES_3);
    r
}

pub open spec fn ref_vector_text(name: Seq<char>, columns: Seq<Seq<char>>) -> Seq<char> {
    "RefVector<DataType> "@ + name + "() { return { "@ + join_spec(columns, ", "@) + " }; };"@
}

/// Returns a Ref Vector with the given name,
///
/// The vector returned will reference the columns names given
/// Used in all entities declarations
pub fn return_ref_vector(name: &str, columns: &[String]) -> (r: String)
    ensures
        r@ == ref_vector_text(name@, strings_view(columns@)),
{
    let comma_sep = create_comma_separated(columns);
    let mut r = String::from_str("RefVector<DataType> ");
    r.append(name);
    r.append("() { return { ");
    r.append(comma_sep.as_str());
    r.append(" }; };");
    r
}

/// list -> "list[0], list[1], ... list[n-1]"
pub fn create_comma_separated(list: &[String]) -> (r: String)
    ensures
        r@ == join_spec(strings_view(list@), ", "@),
{
    join(list, ", ")
}

pub open spec fn precomputed_entities_text(fixed: Seq<Seq<char>>) -> Seq<char> {
    let none = Seq::<Seq<char>>::empty();
    PRECOMPUTED_ENTITIES_0@ + flavor_members_text(fixed) + PRECOMPUTED_ENTITIES_1@
        + ref_vector_text("get_selectors"@, fixed) + PRECOMPUTED_ENTITIES_2@ + ref_vector_text(
        "get_sigma_polynomials"@,
        none,
    ) + PRECOMPUTED_ENTITIES_3@ + ref_vector_text("get_id_polynomials"@, none)
        + PRECOMPUTED_ENTITIES_4@ + ref_vector_text("get_table_polynomials"@, none)
        + PRECOMPUTED_ENTITIES_5@
}

/// Create Precomputed Entities
///
/// Precomputed first contains a pointer view defining all of the precomputed columns
/// As-well as any polys conforming to tables / ids / permutations
pub fn create_precomputed_entities(fixed: &[String]) -> (r: String)
    ensures
        r@ == precomputed_entities_text(strings_view(fixed@)),
{
    let none: Vec<String> = Vec::new();
    assert(strings_view(none@) =~= Seq::<Seq<char>>::empty());
    let pointer_view = create_flavor_members(fixed);

    let selectors = return_ref_vector("get_selectors", fixed);
    let sigma_polys = return_ref_vector("get_sigma_polynomials", none.as_slice());
    let id_polys = return_ref_vector("get_id_polynomials", none.as_slice());
    let table_polys = return_ref_vector("get_table_polynomials", none.as_slice());

    let mut r = String::from_str(PRECOMPUTED_ENTITIES_0);
    r.append(pointer_view.as_str());
    r.append(PRECOMPUTED_ENTITIES_1);
    r.append(selectors.as_str());
    r.append(PRECOMPUTED_ENTITIES_2);
    r.append(sigma_polys.as_str());
    r.append(PRECOMPUTED_ENTITIES_3);
    r.append(id_polys.as_str());
    r.append(PRECOMPUTED_ENTITIES_4);
    r.append(table_polys.as_str());
    r.append(PRECOMPUTED_ENTITIES_5);
    r
}

pub open spec fn witness_entities_text(witness: Seq<Seq<char>>) -> Seq<char> {
    WITNESS_ENTITIES_0@ + flavor_members_text(witness) + WITNESS_ENTITIES_1@ + ref_vector_text(
        "get_wires"@,
        witness,
    ) + WITNESS_ENTITIES_2@ + ref_vector_text("get_sorted_polynomials"@, Seq::empty())
        + WITNESS_ENTITIES_3@
}

pub fn create_witness_entities(witness: &[String]) -> (r: String)
    ensures
        r@ == witness_entities_text(strings_view(witness@)),
{
    let none: Vec<String> = Vec::new();
    assert(strings_view(none@) =~= Seq::<Seq<char>>::empty());
    let pointer_view = create_flavor_members(witness);

    let wires = return_ref_vector("get_wires", witness);
    let sorted_polys = return_ref_vector("get_sorted_polynomials", none.as_slice());

    let mut r = String::from_str(WITNESS_ENTITIES_0);
    r.append(pointer_view.as_str());
    r.append(WITNESS_ENTITIES_1);
    r.append(wires.as_str());
    r.append(WITNESS_ENTITIES_2);
    r.append(sorted_polys.as_str());
    r.append(WITNESS_ENTITIES_3);
    r
}

pub open spec fn all_entities_text(
    all_cols: Seq<Seq<char>>,
    to_be_shifted: Seq<Seq<char>>,
    shifted: Seq<Seq<char>>,
    all_cols_and_shifts: Seq<Seq<char>>,
) -> Seq<char> {
    ALL_ENTITIES_0@ + flavor_members_text(all_cols_and_shifts) + ALL_ENTITIES_1@ + ref_vector_text(
        "get_wires"@,
        all_cols_and_shifts,
    ) + ALL_ENTITIES_2@ + ref_vector_text("get_unshifted"@, all_cols) + ALL_ENTITIES_3@
        + ref_vector_text("get_to_be_shifted"@, to_be_shifted) + ALL_ENTITIES_4@ + ref_vector_text(
        "get_shifted"@,
        shifted,
    ) + ALL_ENTITIES_5@
}

/// Creates container of all witness entities and shifts
pub fn create_all_entities(
    all_cols: &[String],
    to_be_shifted: &[String],
    shifted: &[String],
    all_cols_and_shifts: &[String],
) -> (r: String)
    ensures
        r@ == all_entities_text(
            strings_view(all_cols@),
            strings_view(to_be_shifted@),
            strings_view(shifted@),
            strings_view(all_cols_and_shifts@),
        ),
{
    let all_entities_flavor_members = create_flavor_members(all_cols_and_shifts);

    let wires = return_ref_vector("get_wires", all_cols_and_shifts);
    let get_unshifted = return_ref_vector("get_unshifted", all_cols);
    let get_to_be_shifted = return_ref_vector("get_to_be_shifted", to_be_shifted);
    let get_shifted = return_ref_vector("get_shifted", shifted);

    let mut r = String::from_str(ALL_ENTITIES_0);
    r.append(all_entities_flavor_members.as_str());
    r.append(ALL_ENTITIES_1);
    r.append(wires.as_str());
    r.append(ALL_ENTITIES_2);
    r.append(get_unshifted.as_str());
    r.append(ALL_ENTITIES_3);
    r.append(get_to_be_shifted.as_str());
    r.append(ALL_ENTITIES_4);
    r.append(get_shifted.as_str());
    r.append(ALL_ENTITIES_5);
    r
}

pub fn create_proving_and_verification_key() -> (r: &'static str)
    ensures
        r@ == PROVING_AND_VERIFICATION_KEY@,
{
    PROVING_AND_VERIFICATION_KEY
}

pub open spec fn polynomial_views_text(first_poly: Seq<char>) -> Seq<char> {
    POLYNOMIAL_VIEWS_0@ + first_poly + POLYNOMIAL_VIEWS_1@
}

pub fn create_polynomial_views(first_poly: &String) -> (r: String)
    ensures
        r@ == polynomial_views_text(first_poly@),
{
    let mut r = String::from_str(POLYNOMIAL_VIEWS_0);
    r.append(first_poly.as_str());
    r.append(POLYNOMIAL_VIEWS_1);
    r
}

pub open spec fn flavor_members_text(entities: Seq<Seq<char>>) -> Seq<char> {
    "DEFINE_FLAVOR_MEMBERS(DataType, "@ + join_spec(entities, ", "@) + ")"@
}

pub fn create_flavor_members(entities: &[String]) -> (r: String)
    ensures
        r@ == flavor_members_text(strings_view(entities@)),
{
    let pointer_list = create_comma_separated(entities);
    let mut r = String::from_str("DEFINE_FLAVOR_MEMBERS(DataType, ");
    r.append(pointer_list.as_str());
    r.append(")");
    r
}

/// The label line of one entity, given the upper-case form of its name.
pub open spec fn label_text(name: Seq<char>, upper_name: Seq<char>) -> Seq<char> {
    "Base::"@ + name + " = \""@ + upper_name + "\"; \n            "@
}

/// The label lines of all entities, each labelled by the upper-case form of
/// its name.
pub open spec fn labels_text(names: Seq<Seq<char>>) -> Seq<char>
    decreases names.len(),
{
    if names.len() == 0 {
        Seq::empty()
    } else {
        labels_text(names.drop_last()) + label_text(names.last(), uppercase(names.last()))
    }
}

/// The label line of the entity `name`, labelled `upper_name`.
pub fn create_label(name: &str, upper_name: &str) -> (r: String)
    ensures
        r@ == label_text(name@, upper_name@),
{
    let mut r = String::from_str("Base::");
    r.append(name);
    r.append(" = \"");
    r.append(upper_name);
    r.append("\"; \n            ");
    r
}

pub fn create_labels(all_ents: &[String]) -> (r: String)
    ensures
        r@ == labels_text(strings_view(all_ents@)),
{
    let ghost names = strings_view(all_ents@);
    let mut labels = String::new();
    let mut i: usize = 0;
    while i < all_ents.len()
        invariant
            i <= all_ents@.len(),
            names == strings_view(all_ents@),
            labels@ == labels_text(names.take(i as int)),
        decreases all_ents@.len() - i,
    {
        let name = all_ents[i].as_str();
        let upper = to_uppercase(name);
        let line = create_label(name, upper.as_str());
        labels.append(line.as_str());
        proof {
            assert(names.take(i + 1).drop_last() =~= names.take(i as int));
            assert(names.take(i + 1).last() == name@);
        }
        i = i + 1;
    }
    assert(names.take(i as int) =~= names);
    labels
}

pub open spec fn commitment_labels_text(all_ents: Seq<Seq<char>>) -> Seq<char> {
    COMMITMENT_LABELS_0@ + labels_text(all_ents) + COMMITMENT_LABELS_1@
}

pub fn create_commitment_labels(all_ents: &[String]) -> (r: String)
    ensures
        r@ == commitment_labels_text(strings_view(all_ents@)),
{
    let labels = create_labels(all_ents);
    let mut r = String::from_str(COMMITMENT_LABELS_0);
    r.append(labels.as_str());
    r.append(COMMITMENT_LABELS_1);
    r
}

pub open spec fn key_dereference_line(name: Seq<char>) -> Seq<char> {
    name + " = verification_key->"@ + name + ";"@
}

pub open spec fn key_dereference_text(fixed: Seq<Seq<char>>) -> Seq<char> {
    map_join_spec(fixed, "\n"@, |name: Seq<char>| key_dereference_line(name))
}

pub fn create_key_dereference(fixed: &[String]) -> (r: String)
    ensures
        r@ == key_dereference_text(strings_view(fixed@)),
{
    let deref_transformation = |name: &String| -> (line: String)
        ensures
            line@ == key_dereference_line(name@),
        {
            let mut line = String::from_str(name.as_str());
            line.append(" = verification_key->");
            line.append(name.as_str());
            line.append(";");
            line
        };
    map_with_newline(fixed, deref_transformation, Ghost(|name: Seq<char>| key_dereference_line(name)))
}

pub open spec fn verifier_commitments_text(fixed: Seq<Seq<char>>) -> Seq<char> {
    VERIFIER_COMMITMENTS_0@ + key_dereference_text(fixed) + VERIFIER_COMMITMENTS_1@
}

pub fn create_verifier_commitments(fixed: &[String]) -> (r: String)
    ensures
        r@ == verifier_commitments_text(strings_view(fixed@)),
{
    let key_dereference = create_key_dereference(fixed);
    let mut r = String::from_str(VERIFIER_COMMITMENTS_0);
    r.append(key_dereference.as_str());
    r.append(VERIFIER_COMMITMENTS_1);
    r
}

pub open spec fn declaration_line(name: Seq<char>) -> Seq<char> {
    "Commitment "@ + name + ";"@
}

pub open spec fn deserialize_line(name: Seq<char>) -> Seq<char> {
    name + " = deserialize_from_buffer<Commitment>(Transcript::proof_data, num_bytes_read);"@
}

pub open spec fn serialize_line(name: Seq<char>) -> Seq<char> {
    "serialize_to_buffer<Commitment>("@ + name + ", Transcript::proof_data);"@
}

pub open spec fn transcript_text(witness: Seq<Seq<char>>) -> Seq<char> {
    TRANSCRIPT_0@ + map_join_spec(witness, "\n"@, |c: Seq<char>| declaration_line(c))
        + TRANSCRIPT_1@ + map_join_spec(witness, "\n"@, |name: Seq<char>| deserialize_line(name))
        + TRANSCRIPT_2@ + map_join_spec(witness, "\n"@, |name: Seq<char>| serialize_line(name))
        + TRANSCRIPT_3@
}

pub fn generate_transcript(witness: &[String]) -> (r: String)
    ensures
        r@ == transcript_text(strings_view(witness@)),
{
    // Transformations
    let declaration_transform = |c: &String| -> (line: String)
        ensures
            line@ == declaration_line(c@),
        {
            let mut line = String::from_str("Commitment ");
            line.append(c.as_str());
            line.append(";");
            line
        };
    let deserialize_transform = |name: &String| -> (line: String)
        ensures
            line@ == deserialize_line(name@),
        {
            let mut line = String::from_str(name.as_str());
            line.append(
                " = deserialize_from_buffer<Commitment>(Transcript::proof_data, num_bytes_read);",
            );
            line
        };
    let serialize_transform = |name: &String| -> (line: String)
        ensures
            line@ == serialize_line(name@),
        {
            let mut line = String::from_str("serialize_to_buffer<Commitment>(");
            line.append(name.as_str());
            line.append(", Transcript::proof_data);");
            line
        };

    // Perform Transformations
    let declarations = map_with_newline(
        witness,
        declaration_transform,
        Ghost(|c: Seq<char>| declaration_line(c)),
    );
    let deserialize_wires = map_with_newline(
        witness,
        deserialize_transform,
        Ghost(|name: Seq<char>| deserialize_line(name)),
    );
    let serialize_wires = map_with_newline(
        witness,
        serialize_transform,
        Ghost(|name: Seq<char>| serialize_line(name)),
    );

    let mut r = String::from_str(TRANSCRIPT_0);
    r.append(declarations.as_str());
    r.append(TRANSCRIPT_1);
    r.append(deserialize_wires.as_str());
    r.append(TRANSCRIPT_2);
    r.append(serialize_wires.as_str());
    r.append(TRANSCRIPT_3);
    r
}

/// The whole flavor file of the machine `name`.
pub open spec fn flavor_hpp_text(
    name: Seq<char>,
    relation_file_names: Seq<Seq<char>>,
    fixed: Seq<Seq<char>>,
    witness: Seq<Seq<char>>,
    all_cols: Seq<Seq<char>>,
    to_be_shifted: Seq<Seq<char>>,
    shifted: Seq<Seq<char>>,
    all_cols_and_shifts: Seq<Seq<char>>,
) -> Seq<char> {
    FLAVOR_HPP_0@ + flavor_includes_text(name, relation_file_names) + FLAVOR_HPP_1@ + name
        + FLAVOR_HPP_2@ + CLASS_ALIASES@ + FLAVOR_HPP_3@ + container_sizes_text(
        fixed.len(),
        witness.len(),
        all_cols_and_shifts.len(),
    ) + FLAVOR_HPP_4@ + relation_definitions_text(name, relation_file_names) + FLAVOR_HPP_5@
        + precomputed_entities_text(fixed) + FLAVOR_HPP_6@ + witness_entities_text(witness)
        + FLAVOR_HPP_7@ + all_entities_text(all_cols, to_be_shifted, shifted, all_cols_and_shifts)
        + FLAVOR_HPP_8@ + PROVING_AND_VERIFICATION_KEY@ + FLAVOR_HPP_9@ + polynomial_views_text(
        witness[0],
    ) + FLAVOR_HPP_10@ + commitment_labels_text(all_cols) + FLAVOR_HPP_11@
        + verifier_commitments_text(fixed) + FLAVOR_HPP_12@ + transcript_text(witness)
        + FLAVOR_HPP_13@
}

/// Build the boilerplate for the flavor file
pub fn flavor_hpp(
    name: &str,
    relation_file_names: &[String],
    fixed: &[String],
    witness: &[String],
    all_cols: &[String],
    to_be_shifted: &[String],
    shifted: &[String],
    all_cols_and_shifts: &[String],
) -> (r: String)
    requires
        witness@.len() > 0,
    ensures
        r@ == flavor_hpp_text(
            name@,
            strings_view(relation_file_names@),
            strings_view(fixed@),
            strings_view(witness@),
            strings_view(all_cols@),
            strings_view(to_be_shifted@),
            strings_view(shifted@),
            strings_view(all_cols_and_shifts@),
        ),
{
    let first_poly = &witness[0];
    let includes = flavor_includes(name, relation_file_names);
    let num_precomputed = fixed.len();
    let num_witness = witness.len();
    let num_all = all_cols_and_shifts.len();

    // Top of file boilerplate
    let class_aliases = create_class_aliases();
    let relation_definitions = create_relation_definitions(name, relation_file_names);
    let container_size_definitions = container_size_definitions(
        num_precomputed,
        num_witness,
        num_all,
    );

    // Entities classes
    let precomputed_entities = create_precomputed_entities(fixed);
    let witness_entities = create_witness_entities(witness);
    let all_entities = create_all_entities(all_cols, to_be_shifted, shifted, all_cols_and_shifts);

    let proving_and_verification_key = create_proving_and_verification_key();
    let polynomial_views = create_polynomial_views(first_poly);

    let commitment_labels_class = create_commitment_labels(all_cols);

    let verification_commitments = create_verifier_commitments(fixed);

    let transcript = generate_transcript(witness);

    let mut r = String::from_str(FLAVOR_HPP_0);
    r.append(includes.as_str());
    r.append(FLAVOR_HPP_1);
    r.append(name);
    r.append(FLAVOR_HPP_2);
    r.append(class_aliases);
    r.append(FLAVOR_HPP_3);
    r.append(container_size_definitions.as_str());
    r.append(FLAVOR_HPP_4);
    r.append(relation_definitions.as_str());
    r.append(FLAVOR_HPP_5);
    r.append(precomputed_entities.as_str());
    r.append(FLAVOR_HPP_6);
    r.append(witness_entities.as_str());
    r.append(FLAVOR_HPP_7);
    r.append(all_entities.as_str());
    r.append(FLAVOR_HPP_8);
    r.append(proving_and_verification_key);
    r.append(FLAVOR_HPP_9);
    r.append(polynomial_views.as_str());
    r.append(FLAVOR_HPP_10);
    r.append(commitment_labels_class.as_str());
    r.append(FLAVOR_HPP_11);
    r.append(verification_commitments.as_str());
    r.append(FLAVOR_HPP_12);
    r.append(transcript.as_str());
    r.append(FLAVOR_HPP_13);
    r
}

pub open spec fn flavor_file_name_text(name: Seq<char>) -> Seq<char> {
    name + "_flavor.hpp"@
}

/// The name of the flavor file of the machine `name`.
pub fn flavor_file_name(name: &str) -> (r: String)
    ensures
        r@ == flavor_file_name_text(name@),
{
    let mut r = String::from_str(name);
    r.append("_flavor.hpp");
    r
}

/// Writes the flavor file of a machine.
pub trait FlavorBuilder {
    fn create_flavor_hpp(
        &mut self,
        name: &str,
        relation_file_names: &[String],
        fixed: &[String],
        witness: &[String],
        all_cols: &[String],
        to_be_shifted: &[String],
        shifted: &[String],
        all_cols_and_shifts: &[String],
    );
}

/// `text` states the three entity counts.
pub open spec fn states_counts(text: Seq<char>, num_precomputed: nat, num_witness: nat, num_all: nat) -> bool {
    &&& holds_text(text, "NUM_PRECOMPUTED_ENTITIES = "@ + decimal(num_precomputed) + ";"@)
    &&& holds_text(text, "NUM_WITNESS_ENTITIES = "@ + decimal(num_witness) + ";"@)
    &&& holds_text(text, "NUM_ALL_ENTITIES = "@ + decimal(num_all) + ";"@)
}

proof fn lemma_counts_after(before: Seq<char>, text: Seq<char>, f: nat, w: nat, a: nat)
    requires
        states_counts(text, f, w, a),
    ensures
        states_counts(before + text, f, w, a),
{
    lemma_holds_after(before, text, "NUM_PRECOMPUTED_ENTITIES = "@ + decimal(f) + ";"@);
    lemma_holds_after(before, text, "NUM_WITNESS_ENTITIES = "@ + decimal(w) + ";"@);
    lemma_holds_after(before, text, "NUM_ALL_ENTITIES = "@ + decimal(a) + ";"@);
}

proof fn lemma_counts_before(text: Seq<char>, after: Seq<char>, f: nat, w: nat, a: nat)
    requires
        states_counts(text, f, w, a),
    ensures
        states_counts(text + after, f, w, a),
{
    lemma_holds_before(text, after, "NUM_PRECOMPUTED_ENTITIES = "@ + decimal(f) + ";"@);
    lemma_holds_before(text, after, "NUM_WITNESS_ENTITIES = "@ + decimal(w) + ";"@);
    lemma_holds_before(text, after, "NUM_ALL_ENTITIES = "@ + decimal(a) + ";"@);
}

#[verifier::spinoff_prover]
proof fn lemma_sizes_count_entities(num_precomputed: nat, num_witness: nat, num_all: nat)
    ensures
        holds_text(
            container_sizes_text(num_precomputed, num_witness, num_all),
            "NUM_PRECOMPUTED_ENTITIES = "@ + decimal(num_precomputed) + ";"@,
        ),
        holds_text(
            container_sizes_text(num_precomputed, num_witness, num_all),
            "NUM_WITNESS_ENTITIES = "@ + decimal(num_witness) + ";"@,
        ),
        holds_text(
            container_sizes_text(num_precomputed, num_witness, num_all),
            "NUM_ALL_ENTITIES = "@ + decimal(num_all) + ";"@,
        ),
{
    reveal_strlit("\n        static constexpr size_t NUM_PRECOMPUTED_ENTITIES = ");
    reveal_strlit("; \n        static constexpr size_t NUM_WITNESS_ENTITIES = ");
    reveal_strlit(";\n        static constexpr size_t NUM_WIRES = NUM_WITNESS_ENTITIES + NUM_PRECOMPUTED_ENTITIES;\n        // We have two copies of the witness entities, so we subtract the number of fixed ones (they have no shift), one for the unshifted and one for the shifted\n        static constexpr size_t NUM_ALL_ENTITIES = ");
    reveal_strlit(";\n\n    ");
    reveal_strlit("\n        static constexpr size_t ");
    reveal_strlit(" \n        static constexpr size_t ");
    reveal_strlit("\n        static constexpr size_t NUM_WIRES = NUM_WITNESS_ENTITIES + NUM_PRECOMPUTED_ENTITIES;\n        // We have two copies of the witness entities, so we subtract the number of fixed ones (they have no shift), one for the unshifted and one for the shifted\n        static constexpr size_t ");
    reveal_strlit("\n\n    ");
    reveal_strlit("NUM_PRECOMPUTED_ENTITIES = ");
    reveal_strlit("NUM_WITNESS_ENTITIES = ");
    reveal_strlit("NUM_ALL_ENTITIES = ");
    reveal_strlit(";");
    let x0 = "\n        static constexpr size_t "@;
    let x1 = " \n        static constexpr size_t "@;
    let x2 = "\n        static constexpr size_t NUM_WIRES = NUM_WITNESS_ENTITIES + NUM_PRECOMPUTED_ENTITIES;\n        // We have two copies of the witness entities, so we subtract the number of fixed ones (they have no shift), one for the unshifted and one for the shifted\n        static constexpr size_t "@;
    let n0 = "NUM_PRECOMPUTED_ENTITIES = "@ + decimal(num_precomputed) + ";"@;
    let n1 = "NUM_WITNESS_ENTITIES = "@ + decimal(num_witness) + ";"@;
    let n2 = "NUM_ALL_ENTITIES = "@ + decimal(num_all) + ";"@;
    assert(CONTAINER_SIZES_0@ =~= x0 + "NUM_PRECOMPUTED_ENTITIES = "@);
    assert(CONTAINER_SIZES_1@ =~= ";"@ + x1 + "NUM_WITNESS_ENTITIES = "@);
    assert(CONTAINER_SIZES_2@ =~= ";"@ + x2 + "NUM_ALL_ENTITIES = "@);
    assert(CONTAINER_SIZES_3@ =~= ";"@ + "\n\n    "@);
    let sizes = container_sizes_text(num_precomputed, num_witness, num_all);
    let end = "\n\n    "@;
    assert(sizes =~= x0 + n0 + (x1 + n1 + x2 + n2 + end));
    lemma_holds_between(x0, n0, x1 + n1 + x2 + n2 + end);
    assert(sizes =~= (x0 + n0 + x1) + n1 + (x2 + n2 + end));
    lemma_holds_between(x0 + n0 + x1, n1, x2 + n2 + end);
    assert(sizes =~= (x0 + n0 + x1 + n1 + x2) + n2 + end);
    lemma_holds_between(x0 + n0 + x1 + n1 + x2, n2, end);
}

/// The flavor file states the numbers of its entities: as many precomputed
/// entities as there are fixed columns, as many witness entities as there
/// are witness columns, and as many entities in all as there are columns
/// and shifts.
pub proof fn lemma_flavor_counts_entities(
    name: Seq<char>,
    relation_file_names: Seq<Seq<char>>,
    fixed: Seq<Seq<char>>,
    witness: Seq<Seq<char>>,
    all_cols: Seq<Seq<char>>,
    to_be_shifted: Seq<Seq<char>>,
    shifted: Seq<Seq<char>>,
    all_cols_and_shifts: Seq<Seq<char>>,
)
    ensures
        holds_text(
            flavor_hpp_text(name, relation_file_names, fixed, witness, all_cols, to_be_shifted, shifted, all_cols_and_shifts),
            "NUM_PRECOMPUTED_ENTITIES = "@ + decimal(fixed.len()) + ";"@,
        ),
        holds_text(
            flavor_hpp_text(name, relation_file_names, fixed, witness, all_cols, to_be_shifted, shifted, all_cols_and_shifts),
            "NUM_WITNESS_ENTITIES = "@ + decimal(witness.len()) + ";"@,
        ),
        holds_text(
            flavor_hpp_text(name, relation_file_names, fixed, witness, all_cols, to_be_shifted, shifted, all_cols_and_shifts),
            "NUM_ALL_ENTITIES = "@ + decimal(all_cols_and_shifts.len()) + ";"@,
        ),
{
    let sizes = container_sizes_text(fixed.len(), witness.len(), all_cols_and_shifts.len());
    lemma_sizes_count_entities(fixed.len(), witness.len(), all_cols_and_shifts.len());
    let head = FLAVOR_HPP_0@ + flavor_includes_text(name, relation_file_names) + FLAVOR_HPP_1@
        + name + FLAVOR_HPP_2@ + CLASS_ALIASES@ + FLAVOR_HPP_3@;
    let ghost mut text = head + sizes;
    lemma_counts_after(head, sizes, fixed.len(), witness.len(), all_cols_and_shifts.len());
    lemma_counts_before(text, FLAVOR_HPP_4@, fixed.len(), witness.len(), all_cols_and_shifts.len());
    text = text + FLAVOR_HPP_4@;
    lemma_counts_before(text, relation_definitions_text(name, relation_file_names), fixed.len(), witness.len(), all_cols_and_shifts.len());
    text = text + relation_definitions_text(name, relation_file_names);
    lemma_counts_before(text, FLAVOR_HPP_5@, fixed.len(), witness.len(), all_cols_and_shifts.len());
    text = text + FLAVOR_HPP_5@;
    lemma_counts_before(text, precomputed_entities_text(fixed), fixed.len(), witness.len(), all_cols_and_shifts.len());
    text = text + precomputed_entities_text(fixed);
    lemma_counts_before(text, FLAVOR_HPP_6@, fixed.len(), witness.len(), all_cols_and_shifts.len());
    text = text + FLAVOR_HPP_6@;
    lemma_counts_before(text, witness_entities_text(witness), fixed.len(), witness.len(), all_cols_and_shifts.len());
    text = text + witness_entities_text(witness);
    lemma_counts_before(text, FLAVOR_HPP_7@, fixed.len(), witness.len(), all_cols_and_shifts.len());
    text = text + FLAVOR_HPP_7@;
    lemma_counts_before(text, all_entities_text(all_cols, to_be_shifted, shifted, all_cols_and_shifts), fixed.len(), witness.len(), all_cols_and_shifts.len());
    text = text + all_entities_text(all_cols, to_be_shifted, shifted, all_cols_and_shifts);
    lemma_counts_before(text, FLAVOR_HPP_8@, fixed.len(), witness.len(), all_cols_and_shifts.len());
    text = text + FLAVOR_HPP_8@;
    lemma_counts_before(text, PROVING_AND_VERIFICATION_KEY@, fixed.len(), witness.len(), all_cols_and_shifts.len());
    text = text + PROVING_AND_VERIFICATION_KEY@;
    lemma_counts_before(text, FLAVOR_HPP_9@, fixed.len(), witness.len(), all_cols_and_shifts.len());
    text = text + FLAVOR_HPP_9@;
    lemma_counts_before(text, polynomial_views_text(witness[0]), fixed.len(), witness.len(), all_cols_and_shifts.len());
    text = text + polynomial_views_text(witness[0]);
    lemma_counts_before(text, FLAVOR_HPP_10@, fixed.len(), witness.len(), all_cols_and_shifts.len());
    text = text + FLAVOR_HPP_10@;
    lemma_counts_before(text, commitment_labels_text(all_cols), fixed.len(), witness.len(), all_cols_and_shifts.len());
    text = text + commitment_labels_text(all_cols);
    lemma_counts_before(text, FLAVOR_HPP_11@, fixed.len(), witness.len(), all_cols_and_shifts.len());
    text = text + FLAVOR_HPP_11@;
    lemma_counts_before(text, verifier_commitments_text(fixed), fixed.len(), witness.len(), all_cols_and_shifts.len());
    text = text + verifier_commitments_text(fixed);
    lemma_counts_before(text, FLAVOR_HPP_12@, fixed.len(), witness.len(), all_cols_and_shifts.len());
    text = text + FLAVOR_HPP_12@;
    lemma_counts_before(text, transcript_text(witness), fixed.len(), witness.len(), all_cols_and_shifts.len());
    text = text + transcript_text(witness);
    lemma_counts_before(text, FLAVOR_HPP_13@, fixed.len(), witness.len(), all_cols_and_shifts.len());
    text = text + FLAVOR_HPP_13@;
    assert(text == flavor_hpp_text(
        name,
        relation_file_names,
        fixed,
        witness,
        all_cols,
        to_be_shifted,
        shifted,
        all_cols_and_shifts,
    ));
}

} // verus!
