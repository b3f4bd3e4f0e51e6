//! What the parts of a verification mean, in terms of what goes in and what comes out.

use vstd::prelude::*;

use crate::chain;
use crate::cms;
use crate::digest::{self, DigestAlgorithm};
use crate::error;
use crate::examine::{self, SignatureRequest};
use crate::oid;
use crate::signer;
use crate::status;
use crate::text;
use crate::time::{self, Time};
use crate::verify::{
    self, Checks, ContextView, OutcomeView, PendingView, PhaseView, ProfileOutcome,
    ProfileOutcomeView, Replies, SignatureOutcome, TrialView, TrustRequest, VerificationView,
};

verus! {

// Texts.

/// The number that decimal digits stand for, the first digit being worth the most.
pub open spec fn value_of(digits: Seq<char>) -> int
    decreases digits.len(),
{
    if digits.len() == 0 {
        0
    } else {
        value_of(digits.drop_last()) * 10 + (digits.last() as int - '0' as int)
    }
}

/// Decimal notation consists of digits, stands for the number, and has no leading zero.
pub proof fn decimal_notation_stands_for_the_number(n: nat)
    ensures
        text::decimal_text(n).len() > 0,
        forall|i: int|
            0 <= i < text::decimal_text(n).len() ==> '0' as int <= (#[trigger] text::decimal_text(
                n,
            )[i]) as int <= '9' as int,
        value_of(text::decimal_text(n)) == n,
        text::decimal_text(n)[0] == '0' ==> n == 0,
    decreases n,
{
    let written: Seq<char> = text::decimal_text(n);
    if n < 10 {
        assert(written.len() == 1);
        assert(written.drop_last() =~= Seq::empty());
        reveal_with_fuel(value_of, 2);
        assert(written.last() as int == '0' as int + n);
    } else {
        decimal_notation_stands_for_the_number(n / 10);
        let rest: Seq<char> = text::decimal_text(n / 10);
        assert(written =~= rest.push(text::digit_char(n % 10)));
        assert(written.drop_last() =~= rest);
        assert(written.last() as int == '0' as int + n % 10);
        assert(written[0] == rest[0]);
    }
}

/// The dotted form is the arcs in decimal with a dot between two of them.
pub proof fn dotted_form_joins_the_arcs(arcs: Seq<u32>, arc: u32)
    ensures
        text::dotted_text(Seq::empty()) == Seq::<char>::empty(),
        text::dotted_text(seq![arc]) == text::decimal_text(arc as nat),
        arcs.len() > 0 ==> text::dotted_text(arcs.push(arc)) == text::dotted_text(arcs) + seq!['.']
            + text::decimal_text(arc as nat),
{
    if arcs.len() > 0 {
        assert(arcs.push(arc).drop_last() =~= arcs);
        assert(text::dotted_text(arcs).push('.') =~= text::dotted_text(arcs) + seq!['.']);
    }
}

/// The number at the end of a text grows with each digit and starts anew after anything else.
pub proof fn last_number_of_a_text(written: Seq<char>, c: char)
    ensures
        text::last_arc(Seq::empty()) == 0,
        '0' as int <= c as int <= '9' as int ==> text::last_arc(written.push(c))
            == text::last_arc(written) * 10 + (c as int - '0' as int),
        !('0' as int <= c as int <= '9' as int) ==> text::last_arc(written.push(c)) == 0,
{
    assert(written.push(c).drop_last() =~= written);
    assert(written.push(c).last() == c);
}

/// The numbers in a text fit 32 bits exactly when the one at the end of each beginning of it does.
pub proof fn numbers_of_a_text_fit(written: Seq<char>)
    ensures
        text::all_arcs_fit(written) <==> forall|k: int|
            0 <= k <= written.len() ==> text::last_arc(#[trigger] written.take(k))
                <= 4_294_967_295,
{
}

/// A text of decimal digits only.
pub open spec fn are_digits(written: Seq<char>) -> bool {
    forall|i: int|
        0 <= i < written.len() ==> '0' as int <= (#[trigger] written[i]) as int <= '9' as int
}

/// The numbers in a text fit 32 bits exactly when each run of digits in it stands for one that
/// does.
pub proof fn runs_of_digits_fit(written: Seq<char>)
    ensures
        text::all_arcs_fit(written) <==> forall|i: int, j: int|
            #![trigger written.subrange(i, j)]
            0 <= i <= j <= written.len() && are_digits(written.subrange(i, j)) ==> value_of(
                written.subrange(i, j),
            ) <= 4_294_967_295,
{
    if text::all_arcs_fit(written) {
        assert forall|i: int, j: int|
            #![trigger written.subrange(i, j)]
            0 <= i <= j <= written.len() && are_digits(written.subrange(i, j)) implies value_of(
            written.subrange(i, j),
        ) <= 4_294_967_295 by {
            lemma_run_in_number(written, i, j);
            assert(text::last_arc(written.take(j)) <= u32::MAX);
        }
    }
    if forall|i: int, j: int|
        #![trigger written.subrange(i, j)]
        0 <= i <= j <= written.len() && are_digits(written.subrange(i, j)) ==> value_of(
            written.subrange(i, j),
        ) <= 4_294_967_295 {
        assert forall|k: int| 0 <= k <= written.len() implies text::last_arc(
            #[trigger] written.take(k),
        ) <= u32::MAX by {
            let i: int = lemma_number_is_run(written, k);
            assert(value_of(written.subrange(i, k)) <= 4_294_967_295);
        }
    }
}

/// A run of digits stands for no more than the number that ends where it does.
proof fn lemma_run_in_number(written: Seq<char>, i: int, j: int)
    requires
        0 <= i <= j <= written.len(),
        are_digits(written.subrange(i, j)),
    ensures
        value_of(written.subrange(i, j)) <= text::last_arc(written.take(j)),
    decreases j - i,
{
    let run: Seq<char> = written.subrange(i, j);
    if i < j {
        assert(run.drop_last() =~= written.subrange(i, j - 1));
        assert forall|k: int| 0 <= k < j - 1 - i implies '0' as int <= (#[trigger] written.subrange(
            i,
            j - 1,
        )[k]) as int <= '9' as int by {
            assert(run[k] == written.subrange(i, j - 1)[k]);
        }
        lemma_run_in_number(written, i, j - 1);
        assert(run.last() == run[j - 1 - i]);
        assert(written.take(j) =~= written.take(j - 1).push(run.last()));
        last_number_of_a_text(written.take(j - 1), run.last());
    }
}

/// The number that ends at a position is what some run of digits stands for.
proof fn lemma_number_is_run(written: Seq<char>, k: int) -> (i: int)
    requires
        0 <= k <= written.len(),
    ensures
        0 <= i <= k,
        are_digits(written.subrange(i, k)),
        value_of(written.subrange(i, k)) == text::last_arc(written.take(k)),
    decreases k,
{
    if k == 0 {
        assert(written.take(0) =~= Seq::empty());
        last_number_of_a_text(written, '0');
        0
    } else {
        let c: char = written[k - 1];
        assert(written.take(k) =~= written.take(k - 1).push(c));
        last_number_of_a_text(written.take(k - 1), c);
        if '0' as int <= c as int <= '9' as int {
            let i: int = lemma_number_is_run(written, k - 1);
            let run: Seq<char> = written.subrange(i, k);
            assert(run.drop_last() =~= written.subrange(i, k - 1));
            assert(run.last() == c);
            assert forall|m: int| 0 <= m < run.len() implies '0' as int <= (
            #[trigger] run[m]) as int <= '9' as int by {
                if m < k - 1 - i {
                    assert(run[m] == written.subrange(i, k - 1)[m]);
                }
            }
            i
        } else {
            assert(written.subrange(k, k).len() == 0);
            k
        }
    }
}

// The log.

/// An entry reports a finding or a success with the description and the code that it was given,
/// in the name of the verification.
pub proof fn entries_say_what_they_were_given(description: Seq<char>, code: Seq<char>)
    ensures
        status::finding(description, code) == (status::LogItemView {
            kind: status::LogKind::Informational,
            label: Seq::empty(),
            description,
            function: "verify_time_stamp"@,
            validation_status: Some(code),
        }),
        status::achievement(description, code) == (status::LogItemView {
            kind: status::LogKind::Success,
            label: Seq::empty(),
            description,
            function: "verify_time_stamp"@,
            validation_status: Some(code),
        }),
{
}

/// A log carries a code exactly when an entry of it does.
pub proof fn a_log_carries_the_codes_of_its_entries(
    log: Seq<status::LogItemView>,
    item: status::LogItemView,
    code: Seq<char>,
)
    ensures
        !status::log_has_status(Seq::empty(), code),
        status::log_has_status(log.push(item), code) <==> status::log_has_status(log, code)
            || item.validation_status == Some(code),
        status::count_status(Seq::empty(), code) == 0,
        status::count_status(log.push(item), code) == status::count_status(log, code) + (if item.validation_status
            == Some(code) {
            1int
        } else {
            0int
        }),
{
    let single: Seq<status::LogItemView> = seq![item];
    assert(log.push(item) =~= log + single);
    assert(log.push(item).drop_last() =~= log);
    status::joined_logs_carry_both_codes(log, single, code);
    assert(single[0] == item);
}

/// The entries that were added to a log are those after the ones that it had.
pub proof fn added_entries_are_those_after(
    before: Seq<status::LogItemView>,
    added: Seq<status::LogItemView>,
)
    ensures
        status::added_entries(before, before + added) == added,
{
    assert((before + added).skip(before.len() as int) =~= added);
}

// Times.

/// A time stands for the same second and the same fraction of it in either encoding.
pub proof fn both_encodings_of_a_time_count(u: time::DateTime, gt: time::GeneralizedTime)
    ensures
        Time::Utc(u).datetime() == u,
        Time::General(gt).datetime().seconds == gt.seconds,
        Time::General(gt).datetime().nanos == gt.nanos,
        gt.datetime().seconds == gt.seconds,
        gt.datetime().nanos == gt.nanos,
{
}

/// There is a GeneralizedTime for exactly the seconds of the years 1970 to 9999.
pub proof fn generalized_times_are_those_from_1970_to_9999(seconds: i64)
    ensures
        0 <= seconds <= 253_402_300_799 ==> time::generalized_time_at(seconds) == Some(
            time::GeneralizedTime { seconds, nanos: 0 },
        ),
        seconds < 0 || seconds > 253_402_300_799 ==> time::generalized_time_at(seconds) is None,
{
}

// Identifiers and digests.

/// Arcs make the identifier that their dotted form is read as, unless the sum of the first two
/// does not fit 32 bits.
pub proof fn arcs_make_the_identifier_of_their_dotted_form(arcs: Seq<u32>)
    ensures
        arcs.len() >= 2 && arcs[0] == 2 && arcs[1] > 4_294_967_215 ==> oid::oid_from_arcs(
            arcs,
        ) is None,
        arcs.len() < 2 || arcs[0] != 2 || arcs[1] <= 4_294_967_215 ==> oid::oid_from_arcs(arcs)
            == oid::bcder_oid(text::dotted_text(arcs)),
{
}

/// Any text of up to 1000 characters with numbers of up to 32 bits can be read as an identifier.
pub proof fn short_texts_can_be_read(written: Seq<char>)
    ensures
        oid::is_readable(written) <==> written.len() <= 1000 && text::all_arcs_fit(written),
{
}

/// The identifiers that tokens and certificates are told by.
pub proof fn the_identifiers_are_the_registered_ones()
    ensures
        oid::ID_SIGNED_DATA@ == seq![1u32, 2, 840, 113549, 1, 7, 2],
        oid::ID_CT_TST_INFO@ == seq![1u32, 2, 840, 113549, 1, 9, 16, 1, 4],
        oid::ID_MESSAGE_DIGEST@ == seq![1u32, 2, 840, 113549, 1, 9, 4],
        oid::ID_SIGNING_TIME@ == seq![1u32, 2, 840, 113549, 1, 9, 5],
        oid::ID_SUBJECT_KEY_IDENTIFIER@ == seq![2u32, 5, 29, 14],
{
    assert(oid::ID_SIGNED_DATA@ =~= seq![1u32, 2, 840, 113549, 1, 7, 2]);
    assert(oid::ID_CT_TST_INFO@ =~= seq![1u32, 2, 840, 113549, 1, 9, 16, 1, 4]);
    assert(oid::ID_MESSAGE_DIGEST@ =~= seq![1u32, 2, 840, 113549, 1, 9, 4]);
    assert(oid::ID_SIGNING_TIME@ =~= seq![1u32, 2, 840, 113549, 1, 9, 5]);
    assert(oid::ID_SUBJECT_KEY_IDENTIFIER@ =~= seq![2u32, 5, 29, 14]);
}

/// The octets of the four digest algorithms' identifiers.
proof fn lemma_digest_identifiers()
    ensures
        digest::SHA1_OID@ == seq![0x2bu8, 0x0e, 0x03, 0x02, 0x1a],
        digest::SHA256_OID@ == seq![0x60u8, 0x86, 0x48, 0x01, 0x65, 0x03, 0x04, 0x02, 0x01],
        digest::SHA384_OID@ == seq![0x60u8, 0x86, 0x48, 0x01, 0x65, 0x03, 0x04, 0x02, 0x02],
        digest::SHA512_OID@ == seq![0x60u8, 0x86, 0x48, 0x01, 0x65, 0x03, 0x04, 0x02, 0x03],
{
    assert(digest::SHA1_OID@ =~= seq![0x2bu8, 0x0e, 0x03, 0x02, 0x1a]);
    assert(digest::SHA256_OID@ =~= seq![0x60u8, 0x86, 0x48, 0x01, 0x65, 0x03, 0x04, 0x02, 0x01]);
    assert(digest::SHA384_OID@ =~= seq![0x60u8, 0x86, 0x48, 0x01, 0x65, 0x03, 0x04, 0x02, 0x02]);
    assert(digest::SHA512_OID@ =~= seq![0x60u8, 0x86, 0x48, 0x01, 0x65, 0x03, 0x04, 0x02, 0x03]);
    digest::each_algorithm_has_its_identifier();
}

/// An identifier stands for a digest algorithm exactly when it has the octets that are registered
/// for it.
pub proof fn octets_stand_for_the_registered_algorithm(octets: Seq<u8>)
    ensures
        digest::algorithm_with_octets(octets) == Some(DigestAlgorithm::Sha1) <==> octets
            == seq![0x2bu8, 0x0e, 0x03, 0x02, 0x1a],
        digest::algorithm_with_octets(octets) == Some(DigestAlgorithm::Sha256) <==> octets
            == seq![0x60u8, 0x86, 0x48, 0x01, 0x65, 0x03, 0x04, 0x02, 0x01],
        digest::algorithm_with_octets(octets) == Some(DigestAlgorithm::Sha384) <==> octets
            == seq![0x60u8, 0x86, 0x48, 0x01, 0x65, 0x03, 0x04, 0x02, 0x02],
        digest::algorithm_with_octets(octets) == Some(DigestAlgorithm::Sha512) <==> octets
            == seq![0x60u8, 0x86, 0x48, 0x01, 0x65, 0x03, 0x04, 0x02, 0x03],
{
    lemma_digest_identifiers();
    digest::each_algorithm_has_its_identifier();
}

/// The algorithm of an identifier is that of the octets that its dotted form is read as, where it
/// can be read.
pub proof fn an_identifier_is_told_by_its_dotted_form(id: oid::OidView)
    ensures
        id.dotted.len() <= 1000 && text::all_arcs_fit(id.dotted) ==> (match oid::der_oid(id.dotted) {
            Some(octets) => digest::algorithm_with_oid(id) == digest::algorithm_with_octets(octets),
            None => digest::algorithm_with_oid(id) is None,
        }),
        id.dotted.len() > 1000 || !text::all_arcs_fit(id.dotted) ==> digest::algorithm_with_oid(
            id,
        ) is None,
{
}

/// The digest of a message is the one that the algorithm gives for all of it.
pub proof fn the_whole_message_is_digested(message: Seq<u8>)
    ensures
        digest::digest_of(DigestAlgorithm::Sha1, message) == digest::sha1_digest(message),
        digest::digest_of(DigestAlgorithm::Sha256, message) == digest::sha256_digest(message),
        digest::digest_of(DigestAlgorithm::Sha384, message) == digest::sha384_digest(message),
        digest::digest_of(DigestAlgorithm::Sha512, message) == digest::sha512_digest(message),
        digest::digest_len(DigestAlgorithm::Sha1) == 20,
        digest::digest_len(DigestAlgorithm::Sha256) == 32,
        digest::digest_len(DigestAlgorithm::Sha384) == 48,
        digest::digest_len(DigestAlgorithm::Sha512) == 64,
{
}

/// The octets that the identifier with some arcs is read as, by way of its dotted form.
pub open spec fn octets_of_identifier(arcs: Seq<u32>) -> Option<Seq<u8>> {
    if arcs.len() >= 2 && arcs[0] == 2 && arcs[1] > 4_294_967_215 {
        None
    } else {
        match oid::bcder_oid(text::dotted_text(arcs)) {
            Some(id) => if id.dotted.len() <= 1000 && text::all_arcs_fit(id.dotted) {
                oid::der_oid(id.dotted)
            } else {
                None
            },
            None => None,
        }
    }
}

/// Under the identifier of a supported algorithm the digest of a message is that of all of it,
/// whatever its length, and under any other identifier there is none.
pub proof fn digests_are_those_of_the_whole_message(algorithm: Seq<u32>, message: Seq<u8>)
    ensures
        octets_of_identifier(algorithm) == Some(seq![0x2bu8, 0x0e, 0x03, 0x02, 0x1a])
            ==> examine::digest_under(algorithm, message) == Some(digest::sha1_digest(message)),
        octets_of_identifier(algorithm) == Some(
            seq![0x60u8, 0x86, 0x48, 0x01, 0x65, 0x03, 0x04, 0x02, 0x01],
        ) ==> examine::digest_under(algorithm, message) == Some(digest::sha256_digest(message)),
        octets_of_identifier(algorithm) == Some(
            seq![0x60u8, 0x86, 0x48, 0x01, 0x65, 0x03, 0x04, 0x02, 0x02],
        ) ==> examine::digest_under(algorithm, message) == Some(digest::sha384_digest(message)),
        octets_of_identifier(algorithm) == Some(
            seq![0x60u8, 0x86, 0x48, 0x01, 0x65, 0x03, 0x04, 0x02, 0x03],
        ) ==> examine::digest_under(algorithm, message) == Some(digest::sha512_digest(message)),
        examine::digest_under(algorithm, message) is Some ==> {
            ||| octets_of_identifier(algorithm) == Some(seq![0x2bu8, 0x0e, 0x03, 0x02, 0x1a])
            ||| octets_of_identifier(algorithm) == Some(
                seq![0x60u8, 0x86, 0x48, 0x01, 0x65, 0x03, 0x04, 0x02, 0x01],
            )
            ||| octets_of_identifier(algorithm) == Some(
                seq![0x60u8, 0x86, 0x48, 0x01, 0x65, 0x03, 0x04, 0x02, 0x02],
            )
            ||| octets_of_identifier(algorithm) == Some(
                seq![0x60u8, 0x86, 0x48, 0x01, 0x65, 0x03, 0x04, 0x02, 0x03],
            )
        },
{
    if let Some(octets) = octets_of_identifier(algorithm) {
        octets_stand_for_the_registered_algorithm(octets);
    }
}

// What a token holds.

/// The time stamp information has each field as it was decoded.
pub proof fn decoded_information_is_kept(der: Seq<u8>)
    ensures
        cms::decoded_tst_info(der) is Some <==> cms::decoded_tst_head(der) is Some
            && cms::decoded_tst_tail(der) is Some,
        cms::decoded_tst_info(der) matches Some(info) ==> cms::decoded_tst_head(der) matches Some(head)
            ==> cms::decoded_tst_tail(der) matches Some(tail) ==> {
            &&& info.version == head.version
            &&& info.policy == head.policy
            &&& info.message_imprint.hash_algorithm == head.message_imprint.hash_algorithm
            &&& info.message_imprint.hash_parameters == head.message_imprint.hash_parameters
            &&& info.message_imprint.hashed_message == head.message_imprint.hashed_message
            &&& info.serial_number == head.serial_number
            &&& info.gen_time == head.gen_time
            &&& info.ordering == head.ordering
            &&& info.nonce == head.nonce
            &&& info.accuracy == tail.accuracy
            &&& info.tsa == tail.tsa
            &&& info.extensions == tail.extensions
        },
{
}

/// Putting the time stamp information together changes no field of it.
pub proof fn assembled_information_is_kept(head: cms::TstHeadView, tail: cms::TstTailView)
    ensures
        ({
            let info: cms::TstInfoView = cms::assembled_tst_info(head, tail);
            &&& info.version == head.version
            &&& info.policy == head.policy
            &&& info.message_imprint == head.message_imprint
            &&& info.serial_number == head.serial_number
            &&& info.gen_time == head.gen_time
            &&& info.ordering == head.ordering
            &&& info.nonce == head.nonce
            &&& info.accuracy == tail.accuracy
            &&& info.tsa == tail.tsa
            &&& info.extensions == tail.extensions
        }),
{
}

/// Each member of the certificate set has what was decoded at its position, and no member is left
/// out.
pub proof fn certificates_are_kept(
    encodings: Seq<Option<Seq<u8>>>,
    identities: Option<Seq<Option<cms::CertificateIdentityView>>>,
    keys: Option<Seq<Option<cms::CertificateKeyView>>>,
)
    ensures
        ({
            let set: Seq<cms::CertificateChoiceView> = cms::assembled_certificates(
                encodings,
                identities,
                keys,
            );
            &&& set.len() == encodings.len()
            &&& forall|i: int|
                0 <= i < set.len() ==> (#[trigger] set[i]).encoded == encodings[i]
            &&& forall|i: int|
                0 <= i < set.len() ==> (#[trigger] set[i]).identity == match identities {
                    Some(list) => if i < list.len() {
                        list[i]
                    } else {
                        None
                    },
                    None => None,
                }
            &&& forall|i: int|
                0 <= i < set.len() ==> (#[trigger] set[i]).key == match keys {
                    Some(list) => if i < list.len() {
                        list[i]
                    } else {
                        None
                    },
                    None => None,
                }
        }),
{
}

/// Each signer has what was decoded at its position, and no signer is left out.
pub proof fn signers_are_kept(
    list: Seq<cms::SignerView>,
    attributes: Option<Seq<Option<cms::SignedAttributesView>>>,
)
    ensures
        ({
            let signers: Seq<cms::SignerInfoView> = cms::assembled_signers(list, attributes);
            &&& signers.len() == list.len()
            &&& forall|i: int| 0 <= i < signers.len() ==> (#[trigger] signers[i]).sid == list[i].sid
            &&& forall|i: int|
                0 <= i < signers.len() ==> (#[trigger] signers[i]).digest_algorithm
                    == list[i].digest_algorithm
            &&& forall|i: int|
                0 <= i < signers.len() ==> (#[trigger] signers[i]).signature == list[i].signature
            &&& forall|i: int|
                0 <= i < signers.len() ==> (#[trigger] signers[i]).signed_attrs == match attributes {
                    Some(list) => if i < list.len() {
                        list[i]
                    } else {
                        None
                    },
                    None => None,
                }
        }),
{
}

/// Signed data is what its content, its certificates and its signers were decoded as.
pub proof fn signed_data_is_kept(der: Seq<u8>)
    ensures
        cms::decoded_signed_data(der) is Some <==> cms::signed_content(der) is Some,
        cms::decoded_signed_data(der) matches Some(data) ==> {
            &&& cms::signed_content(der) == Some(data.encap_content_info)
            &&& match cms::certificate_encodings(der) {
                Some(encodings) => data.certificates == Some(
                    cms::assembled_certificates(
                        encodings,
                        cms::certificate_identities(der),
                        cms::certificate_keys(der),
                    ),
                ),
                None => data.certificates is None,
            }
            &&& match cms::signers(der) {
                Some(list) => data.signer_infos == cms::assembled_signers(
                    list,
                    cms::signed_attributes(der),
                ),
                None => data.signer_infos.len() == 0,
            }
        },
{
}

/// The signed data of a response is that in its token, which has to be of the type for signed
/// data.
pub proof fn signed_data_is_that_in_the_token(ts: Seq<u8>)
    ensures
        match cms::time_stamp_token(ts) {
            None => cms::response_signed_data(ts) == Err::<
                Option<cms::SignedDataView>,
                error::TimeStampErrorView,
            >(error::TimeStampErrorView::DecodeError("unable to decode time stamp response"@)),
            Some(None) => cms::response_signed_data(ts) == Ok::<
                Option<cms::SignedDataView>,
                error::TimeStampErrorView,
            >(None),
            Some(Some(token)) => if token.content_type != seq![1u32, 2, 840, 113549, 1, 7, 2] {
                cms::response_signed_data(ts) == Err::<
                    Option<cms::SignedDataView>,
                    error::TimeStampErrorView,
                >(error::TimeStampErrorView::DecodeError("invalid OID for signed data"@))
            } else {
                match cms::decoded_signed_data(token.content) {
                    Some(data) => cms::response_signed_data(ts) == Ok::<
                        Option<cms::SignedDataView>,
                        error::TimeStampErrorView,
                    >(Some(data)),
                    None => cms::response_signed_data(ts) == Err::<
                        Option<cms::SignedDataView>,
                        error::TimeStampErrorView,
                    >(error::TimeStampErrorView::DecodeError("unable to decode signed data"@)),
                }
            },
        },
{
    the_identifiers_are_the_registered_ones();
}

/// The content of a token is handed out exactly where the token is there and of the type for signed
/// data.
pub proof fn a_token_of_signed_data_hands_out_its_content(
    token: Option<Option<cms::TokenView>>,
    content: Seq<u8>,
)
    ensures
        cms::token_content_of(token) == Ok::<Option<Seq<u8>>, error::TimeStampErrorView>(
            Some(content),
        ) <==> token == Some(
            Some(
                cms::TokenView { content_type: seq![1u32, 2, 840, 113549, 1, 7, 2], content },
            ),
        ),
        cms::token_content_of(token) == Ok::<Option<Seq<u8>>, error::TimeStampErrorView>(None)
            <==> token == Some(None::<cms::TokenView>),
        token is None ==> cms::token_content_of(token) == Err::<
            Option<Seq<u8>>,
            error::TimeStampErrorView,
        >(error::TimeStampErrorView::DecodeError("unable to decode time stamp response"@)),
        token matches Some(Some(other)) ==> other.content_type != seq![
            1u32,
            2,
            840,
            113549,
            1,
            7,
            2,
        ] ==> cms::token_content_of(token) == Err::<Option<Seq<u8>>, error::TimeStampErrorView>(
            error::TimeStampErrorView::DecodeError("invalid OID for signed data"@),
        ),
{
    the_identifiers_are_the_registered_ones();
}

/// The time stamp information of signed content is what the content is decoded as, which has to
/// be of the type for time stamp information.
pub proof fn information_is_that_in_the_content(content: cms::SignedContentView)
    ensures
        content.content_type != seq![1u32, 2, 840, 113549, 1, 9, 16, 1, 4]
            ==> cms::content_tst_info(content) == Err::<
            Option<cms::TstInfoView>,
            error::TimeStampErrorView,
        >(error::TimeStampErrorView::DecodeError("invalid OID for time stamp info"@)),
        content.content_type == seq![1u32, 2, 840, 113549, 1, 9, 16, 1, 4] ==> match content.content {
            None => cms::content_tst_info(content) == Ok::<
                Option<cms::TstInfoView>,
                error::TimeStampErrorView,
            >(None),
            Some(octets) => match cms::decoded_tst_info(octets) {
                Some(info) => cms::content_tst_info(content) == Ok::<
                    Option<cms::TstInfoView>,
                    error::TimeStampErrorView,
                >(Some(info)),
                None => cms::content_tst_info(content) == Err::<
                    Option<cms::TstInfoView>,
                    error::TimeStampErrorView,
                >(error::TimeStampErrorView::DecodeError("unable to decode time stamp info"@)),
            },
        },
{
    the_identifiers_are_the_registered_ones();
}

// Certificates.

/// Common names are joined in their order, without those that are not texts.
pub proof fn common_names_are_joined_in_order(
    names: Seq<Option<Seq<char>>>,
    name: Seq<char>,
    der: Seq<u8>,
)
    ensures
        chain::joined(Seq::empty()) == Seq::<char>::empty(),
        chain::joined(names.push(Some(name))) == chain::joined(names) + name,
        chain::joined(names.push(None)) == chain::joined(names),
        match chain::certificate_names(der) {
            Some(names) => chain::common_name_of(der) == chain::joined(names.common_names),
            None => chain::common_name_of(der) == Seq::<char>::empty(),
        },
{
    assert(names.push(Some(name)).drop_last() =~= names);
    assert(names.push(None).drop_last() =~= names);
}

/// A certificate was issued by another one exactly when the name of its issuer is, octet by octet,
/// that of the other's subject.
pub proof fn issuers_are_told_by_name(
    child: chain::CertificateNamesView,
    parent: chain::CertificateNamesView,
)
    ensures
        chain::issued_by(child, parent) <==> child.issuer.len() == parent.subject.len() && forall|
            i: int,
        |
            0 <= i < child.issuer.len() ==> #[trigger] child.issuer[i] == parent.subject[i],
{
    if child.issuer.len() == parent.subject.len() && forall|i: int|
        0 <= i < child.issuer.len() ==> #[trigger] child.issuer[i] == parent.subject[i] {
        assert(child.issuer =~= parent.subject);
    }
}

/// How certificates are ordered: the chain starts at the leaf and takes no certificate twice. Each
/// certificate is followed by the first one outside of the chain so far whose subject is its
/// issuer, and the chain ends only where there is none.
pub proof fn chains_follow_the_names(names: Seq<chain::CertificateNamesView>, leaf: int)
    requires
        0 <= leaf < names.len(),
    ensures
        ({
            let at: Seq<int> = chain::chain_positions(names, leaf);
            &&& at.len() > 0
            &&& at[0] == leaf
            &&& forall|k: int| 0 <= k < at.len() ==> 0 <= #[trigger] at[k] < names.len()
            &&& forall|j: int, k: int|
                0 <= j < at.len() && 0 <= k < at.len() && j != k ==> #[trigger] at[j]
                    != #[trigger] at[k]
            &&& forall|k: int|
                0 < k < at.len() ==> names[at[k - 1]].issuer == names[#[trigger] at[k]].subject
            &&& forall|k: int, i: int|
                0 < k < at.len() && 0 <= i < #[trigger] at[k] && !at.take(k).contains(i)
                    ==> names[at[k - 1]].issuer != (#[trigger] names[i]).subject
            &&& forall|i: int|
                0 <= i < names.len() && !at.contains(i) ==> names[at.last()].issuer != (
                #[trigger] names[i]).subject
        }),
{
    let at: Seq<int> = chain::chain_positions(names, leaf);
    lemma_steps(names, seq![leaf]);
    assert(at.take(1)[0] == leaf);
}

/// Continuing a chain.
proof fn lemma_steps(names: Seq<chain::CertificateNamesView>, so_far: Seq<int>)
    requires
        chain::is_selection(so_far, names.len()),
        so_far.len() > 0,
    ensures
        ({
            let at: Seq<int> = chain::extended(names, so_far);
            &&& chain::is_selection(at, names.len())
            &&& at.len() >= so_far.len()
            &&& at.take(so_far.len() as int) == so_far
            &&& forall|k: int|
                so_far.len() <= k < at.len() ==> names[at[k - 1]].issuer
                    == names[#[trigger] at[k]].subject
            &&& forall|k: int, i: int|
                so_far.len() <= k < at.len() && 0 <= i < #[trigger] at[k] && !at.take(k).contains(i)
                    ==> names[at[k - 1]].issuer != (#[trigger] names[i]).subject
            &&& forall|i: int|
                0 <= i < names.len() && !at.contains(i) ==> names[at.last()].issuer != (
                #[trigger] names[i]).subject
        }),
    decreases names.len() - so_far.len(),
{
    let n: int = so_far.len() as int;
    chain::lemma_selection_len(so_far, names.len());
    chain::lemma_extended_step(names, so_far);
    chain::the_first_issuer_comes_next(names, so_far);
    match chain::next_issuer(names, so_far, 0) {
        Some(next) => {
            let longer: Seq<int> = so_far.push(next);
            chain::lemma_selection_grows(so_far, next, names.len());
            chain::lemma_selection_len(longer, names.len());
            lemma_steps(names, longer);
            let at: Seq<int> = chain::extended(names, so_far);
            assert(at.take(n + 1) == longer);
            assert(at.take(n) =~= so_far) by {
                assert(at.take(n + 1).take(n) =~= at.take(n));
                assert(longer.take(n) =~= so_far);
            }
            assert(at[n] == at.take(n + 1)[n]);
            assert(at[n - 1] == at.take(n + 1)[n - 1]);
            assert(at[n] == next && at[n - 1] == so_far.last());
            assert forall|k: int| n <= k < at.len() implies names[at[k - 1]].issuer
                == names[#[trigger] at[k]].subject by {
                if k == n {
                    issuers_are_told_by_name(names[so_far.last()], names[next]);
                    assert(names[so_far.last()].issuer =~= names[next].subject);
                }
            }
            assert forall|k: int, i: int|
                n <= k < at.len() && 0 <= i < #[trigger] at[k] && !at.take(k).contains(
                    i,
                ) implies names[at[k - 1]].issuer != (#[trigger] names[i]).subject by {
                if k == n {
                    issuers_are_told_by_name(names[so_far.last()], names[i]);
                }
            }
        },
        None => {
            assert(so_far.take(n) =~= so_far);
            assert forall|i: int|
                0 <= i < names.len() && !so_far.contains(i) implies names[so_far.last()].issuer != (
            #[trigger] names[i]).subject by {
                issuers_are_told_by_name(names[so_far.last()], names[i]);
            }
        },
    }
}

/// Certificates are ordered as their names say: the chain that is handed out has the encodings at
/// the positions of the chain of names, and there is none where the leaf is not in the list or a
/// certificate cannot be read.
pub proof fn certificates_are_ordered_by_their_names(
    cert_ders: Seq<Seq<u8>>,
    names: Seq<chain::CertificateNamesView>,
    leaf: int,
)
    requires
        names.len() == cert_ders.len(),
        forall|i: int|
            0 <= i < names.len() ==> chain::certificate_names(#[trigger] cert_ders[i]) == Some(
                names[i],
            ),
        0 <= leaf < names.len(),
    ensures
        chain::leaf_to_root(cert_ders, leaf) matches Ok(ordered) && {
            let at: Seq<int> = chain::chain_positions(names, leaf);
            &&& ordered.len() == at.len()
            &&& forall|k: int| 0 <= k < at.len() ==> #[trigger] ordered[k] == cert_ders[at[k]]
        },
{
    assert(chain::all_names(cert_ders).unwrap() =~= names);
}

/// Certificates that cannot be ordered, and why.
pub proof fn certificates_that_cannot_be_ordered(cert_ders: Seq<Seq<u8>>, leaf: int)
    ensures
        leaf < 0 || leaf >= cert_ders.len() ==> chain::leaf_to_root(cert_ders, leaf) == Err::<
            Seq<Seq<u8>>,
            error::TimeStampErrorView,
        >(error::TimeStampErrorView::DecodeError("invalid leaf certificate position"@)),
        0 <= leaf < cert_ders.len() && (exists|i: int|
            0 <= i < cert_ders.len() && chain::certificate_names(#[trigger] cert_ders[i]) is None)
            ==> chain::leaf_to_root(cert_ders, leaf) == Err::<
            Seq<Seq<u8>>,
            error::TimeStampErrorView,
        >(error::TimeStampErrorView::DecodeError("failed to parse certificates"@)),
{
}

// Signers.

/// Names are the same exactly when they have as many parts, and each part of one has as many
/// attributes as that of the other, all of them in it, both ways.
pub proof fn names_are_lists_of_sets(a: Seq<Seq<Seq<u8>>>, b: Seq<Seq<Seq<u8>>>)
    ensures
        signer::same_name(a, b) <==> {
            &&& a.len() == b.len()
            &&& forall|i: int| 0 <= i < a.len() ==> (#[trigger] a[i]).len() == b[i].len()
            &&& forall|i: int, j: int|
                0 <= i < a.len() && 0 <= j < a[i].len() ==> b[i].contains(#[trigger] a[i][j])
            &&& forall|i: int, j: int|
                0 <= i < b.len() && 0 <= j < b[i].len() ==> a[i].contains(#[trigger] b[i][j])
        },
        signer::same_name(a, a),
        signer::same_name(a, b) ==> signer::same_name(b, a),
{
    if signer::same_name(a, b) {
        assert forall|i: int| 0 <= i < a.len() implies signer::same_rdn(#[trigger] a[i], b[i]) by {}
        assert forall|i: int| 0 <= i < b.len() implies signer::same_rdn(#[trigger] b[i], a[i]) by {
            assert(signer::same_rdn(a[i], b[i]));
        }
        assert forall|i: int, j: int| 0 <= i < b.len() && 0 <= j < b[i].len() implies a[i].contains(
            #[trigger] b[i][j],
        ) by {
            assert(signer::same_rdn(a[i], b[i]));
        }
    }
    assert forall|i: int| 0 <= i < a.len() implies signer::same_rdn(#[trigger] a[i], a[i]) by {}
}

/// A certificate is named by the issuer and the serial number in it, however long they are, and by
/// no other serial number and no other issuer. One whose issuer cannot be encoded is not named so.
pub proof fn issuer_and_serial_number_name_a_certificate(
    certificate: cms::CertificateIdentityView,
    issuer: Option<Seq<Seq<Seq<u8>>>>,
    serial_number: Seq<char>,
)
    ensures
        ({
            let sid: cms::SignerIdentifierView = cms::SignerIdentifierView::IssuerAndSerialNumber {
                issuer,
                serial_number,
            };
            &&& issuer is Some && issuer == certificate.issuer && serial_number
                == certificate.serial_number ==> signer::is_named_by(certificate, sid)
            &&& signer::is_named_by(certificate, sid) <==> {
                &&& issuer is Some
                &&& certificate.issuer is Some
                &&& signer::same_name(issuer.unwrap(), certificate.issuer.unwrap())
                &&& serial_number == certificate.serial_number
            }
        }),
{
    if let Some(name) = issuer {
        names_are_lists_of_sets(name, name);
    }
}

/// A certificate is named by a key identifier exactly when an extension with the identifier
/// 2.5.29.14 holds it.
pub proof fn a_key_identifier_names_a_certificate(
    certificate: cms::CertificateIdentityView,
    id: Seq<u8>,
)
    ensures
        signer::is_named_by(
            certificate,
            cms::SignerIdentifierView::SubjectKeyIdentifier(id),
        ) <==> (certificate.extensions matches Some(extensions) && exists|i: int|
            0 <= i < extensions.len() && (#[trigger] extensions[i]).extn_id == seq![2u32, 5, 29, 14]
                && extensions[i].extn_value == id),
{
    the_identifiers_are_the_registered_ones();
    if let Some(extensions) = certificate.extensions {
        if exists|i: int|
            0 <= i < extensions.len() && (#[trigger] extensions[i]).extn_id == seq![
                2u32,
                5,
                29,
                14,
            ] && extensions[i].extn_value == id {
            let i: int = choose|i: int|
                0 <= i < extensions.len() && (#[trigger] extensions[i]).extn_id == seq![
                    2u32,
                    5,
                    29,
                    14,
                ] && extensions[i].extn_value == id;
            assert(signer::is_key_identifier(extensions[i], id));
        }
    }
}

/// The position of a signer's certificate is that of the first member of the set that the signer
/// names.
pub proof fn the_first_named_certificate_is_the_signers(
    certs: Seq<cms::CertificateChoiceView>,
    sid: cms::SignerIdentifierView,
)
    ensures
        match signer::signer_position(certs, sid) {
            Some(k) => {
                &&& 0 <= k < certs.len()
                &&& certs[k].identity matches Some(identity)
                &&& signer::is_named_by(identity, sid)
                &&& forall|j: int|
                    0 <= j < k ==> ((#[trigger] certs[j]).identity matches Some(other)
                        ==> !signer::is_named_by(other, sid))
            },
            None => forall|j: int|
                0 <= j < certs.len() ==> ((#[trigger] certs[j]).identity matches Some(other)
                    ==> !signer::is_named_by(other, sid)),
        },
{
    signer::signer_certificate_is_the_first_named(certs, sid);
    assert forall|j: int| 0 <= j < certs.len() implies (signer::choice_is_named_by(
        #[trigger] certs[j],
        sid,
    ) <==> (certs[j].identity matches Some(other) && signer::is_named_by(other, sid))) by {}
}

/// The encodings of certificates are those of all members in their order, and there are none where
/// one is missing.
pub proof fn encodings_are_those_of_all_members(certs: Seq<cms::CertificateChoiceView>)
    ensures
        match signer::encodings_of(certs) {
            Some(encodings) => {
                &&& encodings.len() == certs.len()
                &&& forall|i: int|
                    0 <= i < certs.len() ==> (#[trigger] certs[i]).encoded == Some(encodings[i])
            },
            None => exists|i: int| 0 <= i < certs.len() && (#[trigger] certs[i]).encoded is None,
        },
{
}

/// What is handed out for a token: the encoding of the certificate that the first signer names,
/// and the chain from it.
pub proof fn the_first_signer_is_handed_out(
    ts: Seq<u8>,
    data: cms::SignedDataView,
    certs: Seq<cms::CertificateChoiceView>,
)
    requires
        cms::response_signed_data(ts) == Ok::<
            Option<cms::SignedDataView>,
            error::TimeStampErrorView,
        >(Some(data)),
        data.certificates == Some(certs),
        forall|i: int| 0 <= i < certs.len() ==> (#[trigger] certs[i]).encoded is Some,
    ensures
        data.signer_infos.len() == 0 ==> signer::tsa_signer_cert(ts) == Ok::<
            Option<Seq<u8>>,
            error::TimeStampErrorView,
        >(None),
        data.signer_infos.len() > 0 ==> match signer::signer_position(
            certs,
            data.signer_infos[0].sid,
        ) {
            Some(k) => {
                &&& signer::tsa_signer_cert(ts) == Ok::<
                    Option<Seq<u8>>,
                    error::TimeStampErrorView,
                >(certs[k].encoded)
                &&& signer::tsa_cert_chain(ts) == chain::leaf_to_root(
                    Seq::new(certs.len(), |i: int| certs[i].encoded.unwrap()),
                    k,
                )
            },
            None => {
                &&& signer::tsa_signer_cert(ts) == Ok::<
                    Option<Seq<u8>>,
                    error::TimeStampErrorView,
                >(None)
                &&& signer::tsa_cert_chain(ts) == Ok::<
                    Seq<Seq<u8>>,
                    error::TimeStampErrorView,
                >(Seq::empty())
            },
        },
{
    if data.signer_infos.len() > 0 {
        signer::signer_certificate_is_the_first_named(certs, data.signer_infos[0].sid);
    }
    assert(signer::encodings_of(certs).unwrap() =~= Seq::new(
        certs.len(),
        |i: int| certs[i].encoded.unwrap(),
    ));
}

/// Where nothing is handed out for a token, and why.
pub proof fn tokens_without_a_signer_certificate(ts: Seq<u8>)
    ensures
        match cms::response_signed_data(ts) {
            Err(error) => signer::tsa_signer_cert(ts) == Err::<
                Option<Seq<u8>>,
                error::TimeStampErrorView,
            >(error) && signer::tsa_cert_chain(ts) == Err::<
                Seq<Seq<u8>>,
                error::TimeStampErrorView,
            >(error),
            Ok(None) => signer::tsa_signer_cert(ts) == Ok::<
                Option<Seq<u8>>,
                error::TimeStampErrorView,
            >(None) && signer::tsa_cert_chain(ts) == Ok::<
                Seq<Seq<u8>>,
                error::TimeStampErrorView,
            >(Seq::empty()),
            Ok(Some(data)) => match data.certificates {
                None => signer::tsa_signer_cert(ts) == Ok::<
                    Option<Seq<u8>>,
                    error::TimeStampErrorView,
                >(None) && signer::tsa_cert_chain(ts) == Ok::<
                    Seq<Seq<u8>>,
                    error::TimeStampErrorView,
                >(Seq::empty()),
                Some(certs) => {
                    let error: error::TimeStampErrorView = error::TimeStampErrorView::DecodeError(
                        "time stamp certificate could not be processed"@,
                    );
                    (exists|i: int| 0 <= i < certs.len() && (#[trigger] certs[i]).encoded is None)
                        ==> signer::tsa_signer_cert(ts) == Err::<
                        Option<Seq<u8>>,
                        error::TimeStampErrorView,
                    >(error) && signer::tsa_cert_chain(ts) == Err::<
                        Seq<Seq<u8>>,
                        error::TimeStampErrorView,
                    >(error)
                },
            },
        },
{
}

// What a signer signed.

/// The status codes of a verification.
pub proof fn the_status_codes_are_the_registered_ones()
    ensures
        status::TIMESTAMP_MALFORMED@ == "timeStamp.malformed"@,
        status::TIMESTAMP_MISMATCH@ == "timeStamp.mismatch"@,
        status::TIMESTAMP_OUTSIDE_VALIDITY@ == "timeStamp.outsideValidity"@,
        status::TIMESTAMP_TRUSTED@ == "timeStamp.trusted"@,
        status::TIMESTAMP_UNTRUSTED@ == "timeStamp.untrusted"@,
        status::TIMESTAMP_VALIDATED@ == "timeStamp.validated"@,
{
}

/// A malformed time stamp leads to a decoding error and an entry with the code for it.
pub proof fn malformed_time_stamps_are_reported(description: Seq<char>, message: Seq<char>)
    ensures
        examine::malformed(description, message).error == error::TimeStampErrorView::DecodeError(
            message,
        ),
        examine::malformed(description, message).item.kind == status::LogKind::Informational,
        examine::malformed(description, message).item.label == Seq::<char>::empty(),
        examine::malformed(description, message).item.description == description,
        examine::malformed(description, message).item.function == "verify_time_stamp"@,
        examine::malformed(description, message).item.validation_status == Some(
            "timeStamp.malformed"@,
        ),
{
}

/// The attribute of a type is the first one that has it, and its value counts where it is the
/// only one.
pub proof fn the_first_attribute_of_a_type_counts(
    attributes: Seq<cms::AttributeView>,
    attribute_type: Seq<u32>,
    i: int,
)
    requires
        0 <= i < attributes.len(),
        attributes[i].attribute_type == Some(attribute_type),
        forall|j: int| 0 <= j < i ==> (#[trigger] attributes[j]).attribute_type != Some(attribute_type),
    ensures
        examine::attribute_of(attributes, attribute_type) == Some(attributes[i]),
        attributes[i].values.len() == 1 ==> examine::single_value_of(attributes, attribute_type)
            == Some(attributes[i].values[0]),
        attributes[i].values.len() != 1 ==> examine::single_value_of(
            attributes,
            attribute_type,
        ) is None,
{
    lemma_attribute_from(attributes, attribute_type, 0);
}

/// There is no attribute of a type that no attribute has.
pub proof fn an_attribute_that_is_missing_is_not_found(
    attributes: Seq<cms::AttributeView>,
    attribute_type: Seq<u32>,
)
    requires
        forall|j: int|
            0 <= j < attributes.len() ==> (#[trigger] attributes[j]).attribute_type != Some(
                attribute_type,
            ),
    ensures
        examine::attribute_of(attributes, attribute_type) is None,
        examine::single_value_of(attributes, attribute_type) is None,
{
    lemma_attribute_from(attributes, attribute_type, 0);
}

/// Looking for an attribute from a position on.
proof fn lemma_attribute_from(
    attributes: Seq<cms::AttributeView>,
    attribute_type: Seq<u32>,
    i: int,
)
    requires
        0 <= i <= attributes.len(),
    ensures
        match examine::attribute_from(attributes, attribute_type, i) {
            Some(found) => exists|k: int|
                i <= k < attributes.len() && #[trigger] attributes[k] == found
                    && attributes[k].attribute_type == Some(attribute_type) && forall|j: int|
                    i <= j < k ==> (#[trigger] attributes[j]).attribute_type != Some(
                        attribute_type,
                    ),
            None => forall|j: int|
                i <= j < attributes.len() ==> (#[trigger] attributes[j]).attribute_type != Some(
                    attribute_type,
                ),
        },
    decreases attributes.len() - i,
{
    if i < attributes.len() && attributes[i].attribute_type != Some(attribute_type) {
        lemma_attribute_from(attributes, attribute_type, i + 1);
        if let Some(found) = examine::attribute_from(attributes, attribute_type, i) {
            let k: int = choose|k: int|
                i + 1 <= k < attributes.len() && #[trigger] attributes[k] == found
                    && attributes[k].attribute_type == Some(attribute_type) && forall|j: int|
                    i + 1 <= j < k ==> (#[trigger] attributes[j]).attribute_type != Some(
                        attribute_type,
                    );
            assert(attributes[k] == found);
        }
    }
}

/// Signed values are looked up among the signed attributes.
pub proof fn signed_values_are_those_of_the_signed_attributes(
    signer: cms::SignerInfoView,
    attribute_type: Seq<u32>,
)
    ensures
        match signer.signed_attrs {
            Some(signed) => examine::signed_value_of(signer, attribute_type)
                == examine::single_value_of(signed.attributes, attribute_type),
            None => examine::signed_value_of(signer, attribute_type) is None,
        },
{
}

/// What is signed is the encoding of the signed attributes where there are any, and otherwise the
/// content, all of it.
pub proof fn what_is_signed(content: cms::SignedContentView, signer: cms::SignerInfoView)
    ensures
        match signer.signed_attrs {
            Some(signed) => match signed.encoded {
                Ok(encoded) => {
                    &&& examine::digested_attributes(signer) == Ok::<
                        Option<Seq<u8>>,
                        examine::EncodeErrorView,
                    >(Some(encoded))
                    &&& examine::signed_octets(content, signer) == Ok::<
                        Seq<u8>,
                        examine::RejectionView,
                    >(encoded)
                },
                Err(message) => {
                    &&& examine::digested_attributes(signer) == Err::<
                        Option<Seq<u8>>,
                        examine::EncodeErrorView,
                    >(examine::EncodeErrorView { message })
                    &&& examine::signed_octets(content, signer) == Err::<
                        Seq<u8>,
                        examine::RejectionView,
                    >(
                        examine::malformed(
                            "timestamp signer attributes malformed"@,
                            "timestamp signer info malformed"@,
                        ),
                    )
                },
            },
            None => {
                &&& examine::digested_attributes(signer) == Ok::<
                    Option<Seq<u8>>,
                    examine::EncodeErrorView,
                >(None)
                &&& match content.content {
                    Some(octets) => examine::signed_octets(content, signer) == Ok::<
                        Seq<u8>,
                        examine::RejectionView,
                    >(octets),
                    None => examine::signed_octets(content, signer) == Err::<
                        Seq<u8>,
                        examine::RejectionView,
                    >(
                        examine::malformed(
                            "timestamp no message digest"@,
                            "time stamp does not contain digested content"@,
                        ),
                    ),
                }
            },
        },
        content.content matches Some(octets) ==> examine::content_octets(content) == octets,
        content.content is None ==> examine::content_octets(content).len() == 0,
{
}

/// The message digest among the signed attributes is in order exactly when it is there once, can
/// be decoded, and equals that of the content. Otherwise the first of these that fails is
/// reported.
pub proof fn message_digests_have_to_agree(
    attribute: Option<cms::AttributeView>,
    signed: Option<Seq<u8>>,
    computed: Option<Seq<u8>>,
)
    ensures
        examine::message_digest_verdict(attribute, signed, computed) is Ok <==> {
            &&& attribute is Some
            &&& attribute.unwrap().values.len() == 1
            &&& signed is Some
            &&& signed == computed
        },
        examine::message_digest_verdict(attribute, signed, computed) matches Err(rejection) ==> {
            &&& attribute is None ==> rejection == examine::malformed(
                "timestamp no message digest"@,
                "no message imprint"@,
            )
            &&& attribute matches Some(found) ==> {
                &&& found.values.len() != 1 ==> rejection == examine::malformed(
                    "timestamp response contained multiple message digests"@,
                    "message digest attribute has "@ + text::decimal_text(found.values.len())
                        + " values, should have one"@,
                )
                &&& found.values.len() == 1 && signed is None ==> rejection == examine::malformed(
                    "timestamp could not decode signed message data"@,
                    "unable to decode signed message data"@,
                )
                &&& found.values.len() == 1 && signed is Some && computed is None ==> rejection
                    == examine::malformed(
                    "timestamp bad message digest algorithm"@,
                    "unsupported digest algorithm"@,
                )
                &&& found.values.len() == 1 && signed is Some && computed is Some ==> {
                    &&& rejection.error == error::TimeStampErrorView::InvalidData
                    &&& rejection.item == status::finding(
                        "timestamp bad message digest"@,
                        "timeStamp.mismatch"@,
                    )
                }
            }
        },
{
}

/// The time among the signed attributes replaces that of the time stamp information where it lies
/// in the years 1970 to 9999, down to the second; nothing else changes.
pub proof fn the_signed_time_is_the_one_that_counts(
    tst: cms::TstInfoView,
    signed_time: Option<Time>,
)
    ensures
        ({
            let seconds: i64 = match signed_time {
                Some(Time::Utc(u)) => u.seconds,
                Some(Time::General(gt)) => gt.seconds,
                None => -1i64,
            };
            let updated: cms::TstInfoView = examine::with_signed_time(tst, signed_time);
            &&& 0 <= seconds <= 253_402_300_799 ==> updated.gen_time.seconds == seconds
                && updated.gen_time.nanos == 0
            &&& seconds < 0 || seconds > 253_402_300_799 ==> updated.gen_time == tst.gen_time
            &&& updated.version == tst.version
            &&& updated.policy == tst.policy
            &&& updated.message_imprint == tst.message_imprint
            &&& updated.serial_number == tst.serial_number
            &&& updated.accuracy == tst.accuracy
            &&& updated.ordering == tst.ordering
            &&& updated.nonce == tst.nonce
            &&& updated.tsa == tst.tsa
            &&& updated.extensions == tst.extensions
        }),
{
}

/// What a signature is checked against has the signature, what is signed, the encoding of the key
/// and both algorithms; where one of them is missing, the first of these is reported.
pub proof fn a_signature_is_checked_against_what_is_signed(
    content: cms::SignedContentView,
    signer: cms::SignerInfoView,
    key: cms::CertificateKeyView,
    hash_alg: Option<oid::OidView>,
    sig_alg: Option<oid::OidView>,
)
    ensures
        examine::signature_request_of(content, signer, key, hash_alg, sig_alg) is Ok
            <==> examine::signed_octets(content, signer) is Ok && hash_alg is Some
            && key.encoded is Some && sig_alg is Some,
        examine::signature_request_of(content, signer, key, hash_alg, sig_alg) matches Ok(request)
            ==> {
            &&& Some(request.sig_alg) == sig_alg
            &&& Some(request.hash_alg) == hash_alg
            &&& request.sig_val == signer.signature
            &&& Ok::<Seq<u8>, examine::RejectionView>(request.tbs) == examine::signed_octets(
                content,
                signer,
            )
            &&& Some(request.signing_key_der) == key.encoded
        },
        examine::signature_request_of(content, signer, key, hash_alg, sig_alg) matches Err(
            rejection,
        ) ==> {
            &&& examine::signed_octets(content, signer) matches Err(first) ==> rejection == first
            &&& examine::signed_octets(content, signer) is Ok ==> {
                &&& hash_alg is None ==> rejection == examine::malformed(
                    "timestamp bad hash alg"@,
                    "timestamp bad tbs certificate"@,
                )
                &&& hash_alg is Some && key.encoded is None ==> rejection == examine::malformed(
                    "timestamp bad signing key"@,
                    "timestamp bad tbs certificate"@,
                )
                &&& hash_alg is Some && key.encoded is Some ==> rejection == examine::malformed(
                    "timestamp bad tbs certificate alg"@,
                    "timestamp bad tbs certificate"@,
                )
            }
        },
{
}

/// Each part of what is read of a signer comes from where it has to.
pub proof fn what_is_read_of_a_signer(
    content: cms::SignedContentView,
    signer: cms::SignerInfoView,
    key: cms::CertificateKeyView,
    cert_der: Seq<u8>,
)
    ensures
        ({
            let evidence: examine::EvidenceView = examine::evidence_of(
                content,
                signer,
                key,
                cert_der,
            );
            &&& evidence.common_name == chain::common_name_of(cert_der)
            &&& match content.content {
                Some(octets) => {
                    &&& evidence.tst == if content.content_type == seq![
                        1u32,
                        2,
                        840,
                        113549,
                        1,
                        9,
                        16,
                        1,
                        4,
                    ] {
                        cms::decoded_tst_info(octets)
                    } else {
                        None
                    }
                    &&& evidence.computed_digest == examine::digest_under(
                        signer.digest_algorithm,
                        octets,
                    )
                },
                None => {
                    &&& evidence.tst is None
                    &&& evidence.computed_digest == examine::digest_under(
                        signer.digest_algorithm,
                        Seq::empty(),
                    )
                },
            }
            &&& evidence.signed_time == match examine::signed_value_of(
                signer,
                seq![1u32, 2, 840, 113549, 1, 9, 5],
            ) {
                Some(value) => cms::decoded_time(value),
                None => None,
            }
            &&& evidence.signed_digest == match examine::signed_value_of(
                signer,
                seq![1u32, 2, 840, 113549, 1, 9, 4],
            ) {
                Some(value) => cms::decoded_octets(value),
                None => None,
            }
            &&& evidence.hash_alg == oid::oid_from_arcs(signer.digest_algorithm)
            &&& evidence.sig_alg == oid::oid_from_arcs(key.algorithm)
        }),
{
    the_identifiers_are_the_registered_ones();
}

/// The signature of a signer is worth checking exactly when there is time stamp information, the
/// signed attributes have the message digest of the content, if there are any, and there is
/// something to check the signature against.
pub proof fn which_signatures_are_worth_checking(
    content: cms::SignedContentView,
    signer: cms::SignerInfoView,
    key: cms::CertificateKeyView,
    cert_pos: int,
    evidence: examine::EvidenceView,
)
    ensures
        examine::signer_verdict(content, signer, key, cert_pos, evidence) is Ok <==> {
            &&& evidence.tst is Some
            &&& signer.signed_attrs matches Some(signed) ==> {
                &&& examine::attribute_of(
                    signed.attributes,
                    seq![1u32, 2, 840, 113549, 1, 9, 4],
                ) matches Some(attribute)
                &&& attribute.values.len() == 1
                &&& evidence.signed_digest is Some
                &&& evidence.signed_digest == evidence.computed_digest
                &&& signed.encoded is Ok
            }
            &&& signer.signed_attrs is None ==> content.content is Some
            &&& evidence.hash_alg is Some
            &&& key.encoded is Some
            &&& evidence.sig_alg is Some
        },
{
    the_identifiers_are_the_registered_ones();
}

/// A signature that is worth checking is checked with the key of the certificate, for the time
/// stamp information as it was decoded but for the signed time, and the period in which the
/// certificate is valid is the one in it, whichever encoding its ends have.
pub proof fn what_is_kept_of_a_signer(
    content: cms::SignedContentView,
    signer: cms::SignerInfoView,
    key: cms::CertificateKeyView,
    cert_pos: int,
    evidence: examine::EvidenceView,
    candidate: examine::CandidateView,
)
    requires
        examine::signer_verdict(content, signer, key, cert_pos, evidence) == Ok::<
            examine::CandidateView,
            examine::RejectionView,
        >(candidate),
    ensures
        candidate.cert_pos == cert_pos,
        candidate.common_name == evidence.common_name,
        candidate.not_before == match key.not_before {
            Time::Utc(u) => u.seconds,
            Time::General(gt) => gt.seconds,
        },
        candidate.not_after == match key.not_after {
            Time::Utc(u) => u.seconds,
            Time::General(gt) => gt.seconds,
        },
        signer.signed_attrs is None ==> Some(candidate.tst) == evidence.tst,
        signer.signed_attrs is Some ==> candidate.tst == examine::with_signed_time(
            evidence.tst.unwrap(),
            evidence.signed_time,
        ),
        candidate.request.sig_val == signer.signature,
        Some(candidate.request.signing_key_der) == key.encoded,
        Some(candidate.request.hash_alg) == evidence.hash_alg,
        Some(candidate.request.sig_alg) == evidence.sig_alg,
        signer.signed_attrs matches Some(signed) ==> Ok::<Seq<u8>, Seq<char>>(candidate.request.tbs)
            == signed.encoded,
        signer.signed_attrs is None ==> Some(candidate.request.tbs) == content.content,
{
}

/// Why a signature is not worth checking: the first thing that is missing is reported.
pub proof fn why_a_signature_is_not_worth_checking(
    content: cms::SignedContentView,
    signer: cms::SignerInfoView,
    key: cms::CertificateKeyView,
    cert_pos: int,
    evidence: examine::EvidenceView,
    rejection: examine::RejectionView,
)
    requires
        examine::signer_verdict(content, signer, key, cert_pos, evidence) == Err::<
            examine::CandidateView,
            examine::RejectionView,
        >(rejection),
    ensures
        evidence.tst is None ==> {
            &&& rejection.error == error::TimeStampErrorView::InvalidData
            &&& rejection.item == status::finding(
                "timestamp response had no TstInfo"@,
                "timeStamp.malformed"@,
            )
        },
        evidence.tst is Some ==> match signer.signed_attrs {
            Some(signed) => match examine::message_digest_verdict(
                examine::attribute_of(signed.attributes, seq![1u32, 2, 840, 113549, 1, 9, 4]),
                evidence.signed_digest,
                evidence.computed_digest,
            ) {
                Err(first) => rejection == first,
                Ok(_) => Err::<examine::SignatureRequestView, examine::RejectionView>(rejection)
                    == examine::signature_request_of(
                    content,
                    signer,
                    key,
                    evidence.hash_alg,
                    evidence.sig_alg,
                ),
            },
            None => Err::<examine::SignatureRequestView, examine::RejectionView>(rejection)
                == examine::signature_request_of(
                content,
                signer,
                key,
                evidence.hash_alg,
                evidence.sig_alg,
            ),
        },
{
    the_identifiers_are_the_registered_ones();
}

/// A signer's attributes are checked exactly when it has any.
pub proof fn attributes_are_checked_where_there_are_any(
    signer: cms::SignerInfoView,
    evidence: examine::EvidenceView,
)
    ensures
        examine::attributes_verdict(signer, evidence) == match signer.signed_attrs {
            Some(signed) => examine::message_digest_verdict(
                examine::attribute_of(signed.attributes, seq![1u32, 2, 840, 113549, 1, 9, 4]),
                evidence.signed_digest,
                evidence.computed_digest,
            ),
            None => Ok::<(), examine::RejectionView>(()),
        },
{
    the_identifiers_are_the_registered_ones();
}

/// A signer whose signature was accepted stands exactly when it signed in the period in which its
/// certificate is valid, both ends included, and the message imprint is the digest of the data.
/// Otherwise the first of these that fails is reported.
pub proof fn imprints_have_to_be_those_of_the_data(
    candidate: examine::CandidateView,
    computed: Option<Seq<u8>>,
)
    ensures
        examine::imprint_verdict(candidate, computed) is Ok <==> {
            &&& candidate.not_before <= candidate.tst.gen_time.seconds
            &&& candidate.tst.gen_time.seconds <= candidate.not_after
            &&& computed == Some(candidate.tst.message_imprint.hashed_message)
        },
        examine::imprint_verdict(candidate, computed) matches Ok(item) ==> item
            == status::achievement(
            "timestamp message digest matched: "@ + candidate.common_name,
            "timeStamp.validated"@,
        ),
        examine::imprint_verdict(candidate, computed) matches Err(rejection) ==> {
            let within: bool = candidate.not_before <= candidate.tst.gen_time.seconds
                <= candidate.not_after;
            &&& !within ==> rejection.error == error::TimeStampErrorView::ExpiredCertificate
                && rejection.item == status::finding(
                "timestamp signer outside of certificate validity"@,
                "timeStamp.outsideValidity"@,
            )
            &&& within && computed is None ==> rejection.error
                == error::TimeStampErrorView::UnsupportedAlgorithm && rejection.item
                == status::finding(
                "timestamp unknown message digest algorithm"@,
                "timeStamp.untrusted"@,
            )
            &&& within && computed is Some ==> rejection.error
                == error::TimeStampErrorView::InvalidData && rejection.item == status::finding(
                "timestamp message digest did not match: "@ + candidate.common_name,
                "timeStamp.mismatch"@,
            )
        },
{
}

// The course of a verification.

/// A signer is looked at where one of the certificates is its own and can be used, with what is
/// read of that certificate and of the content.
pub proof fn a_signer_is_looked_at_with_its_own_certificate(
    cx: ContextView,
    signer_info: cms::SignerInfoView,
)
    ensures
        match signer::signer_position(cx.certs, signer_info.sid) {
            None => verify::examined(cx, signer_info) is Skipped,
            Some(pos) => match cx.certs[pos].encoded {
                None => verify::examined(cx, signer_info) is Skipped,
                Some(der) => match cx.certs[pos].key {
                    None => verify::examined(cx, signer_info) is Skipped,
                    Some(key) => {
                        let evidence: examine::EvidenceView = examine::evidence_of(
                            cx.content,
                            signer_info,
                            key,
                            der,
                        );
                        let verdict: Result<examine::CandidateView, examine::RejectionView> =
                            examine::signer_verdict(cx.content, signer_info, key, pos, evidence);
                        &&& verdict matches Ok(candidate) ==> verify::examined(cx, signer_info)
                            == verify::ExaminedView::Candidate(candidate)
                        &&& verdict matches Err(rejection) ==> verify::examined(cx, signer_info)
                            == verify::ExaminedView::Rejected(rejection)
                    },
                },
            },
        },
{
}

/// A verification goes on with the first signer whose signature is worth checking, and with a
/// fresh log.
pub proof fn the_first_signature_that_is_worth_checking_is_next(
    cx: ContextView,
    i: int,
    k: int,
    candidate: examine::CandidateView,
    error: error::TimeStampErrorView,
    log: Seq<status::LogItemView>,
)
    requires
        0 <= i <= k < cx.signer_infos.len(),
        verify::examined(cx, cx.signer_infos[k]) == verify::ExaminedView::Candidate(candidate),
        forall|j: int|
            i <= j < k ==> !(verify::examined(cx, #[trigger] cx.signer_infos[j]) is Candidate),
    ensures
        verify::next_signer(cx, i, error, log) == VerificationView::Pending(
            PendingView {
                context: cx,
                position: k,
                phase: PhaseView::Signature(candidate),
                log: Seq::empty(),
            },
        ),
    decreases k - i,
{
    if i < k {
        assert(!(verify::examined(cx, cx.signer_infos[i]) is Candidate));
        match verify::examined(cx, cx.signer_infos[i]) {
            verify::ExaminedView::Rejected(rejection) => {
                the_first_signature_that_is_worth_checking_is_next(
                    cx,
                    i + 1,
                    k,
                    candidate,
                    rejection.error,
                    seq![rejection.item],
                );
            },
            _ => {
                the_first_signature_that_is_worth_checking_is_next(
                    cx,
                    i + 1,
                    k,
                    candidate,
                    error,
                    Seq::empty(),
                );
            },
        }
    }
}

/// Where no signer is left, a verification ends with the last error and its log. Signers that are
/// passed over leave the error as it is, and nothing in the log.
pub proof fn the_last_error_stands(
    cx: ContextView,
    i: int,
    error: error::TimeStampErrorView,
    log: Seq<status::LogItemView>,
)
    requires
        0 <= i,
        forall|j: int|
            i <= j < cx.signer_infos.len() ==> verify::examined(
                cx,
                #[trigger] cx.signer_infos[j],
            ) is Skipped,
    ensures
        i >= cx.signer_infos.len() ==> verify::next_signer(cx, i, error, log)
            == VerificationView::Finished(OutcomeView { result: Err(error), log }),
        i < cx.signer_infos.len() ==> verify::next_signer(cx, i, error, log)
            == VerificationView::Finished(
            OutcomeView { result: Err(error), log: Seq::empty() },
        ),
    decreases cx.signer_infos.len() - i,
{
    if i < cx.signer_infos.len() {
        assert(verify::examined(cx, cx.signer_infos[i]) is Skipped);
        the_last_error_stands(cx, i + 1, error, Seq::empty());
    }
}

/// A signer that is rejected replaces the error of those before it, and the log.
pub proof fn the_last_rejection_stands(
    cx: ContextView,
    i: int,
    m: int,
    rejection: examine::RejectionView,
    error: error::TimeStampErrorView,
    log: Seq<status::LogItemView>,
)
    requires
        0 <= i <= m < cx.signer_infos.len(),
        verify::examined(cx, cx.signer_infos[m]) == verify::ExaminedView::Rejected(rejection),
        forall|j: int|
            i <= j < m ==> !(verify::examined(cx, #[trigger] cx.signer_infos[j]) is Candidate),
        forall|j: int|
            m < j < cx.signer_infos.len() ==> verify::examined(
                cx,
                #[trigger] cx.signer_infos[j],
            ) is Skipped,
    ensures
        m == cx.signer_infos.len() - 1 ==> verify::next_signer(cx, i, error, log)
            == VerificationView::Finished(
            OutcomeView { result: Err(rejection.error), log: seq![rejection.item] },
        ),
        m < cx.signer_infos.len() - 1 ==> verify::next_signer(cx, i, error, log)
            == VerificationView::Finished(
            OutcomeView { result: Err(rejection.error), log: Seq::empty() },
        ),
    decreases m - i,
{
    if i < m {
        assert(!(verify::examined(cx, cx.signer_infos[i]) is Candidate));
        match verify::examined(cx, cx.signer_infos[i]) {
            verify::ExaminedView::Rejected(other) => {
                the_last_rejection_stands(
                    cx,
                    i + 1,
                    m,
                    rejection,
                    other.error,
                    seq![other.item],
                );
            },
            _ => {
                the_last_rejection_stands(cx, i + 1, m, rejection, error, Seq::empty());
            },
        }
    } else {
        the_last_error_stands(cx, m + 1, rejection.error, seq![rejection.item]);
    }
}

/// What a verification starts with, and what it refuses at once.
pub proof fn how_a_verification_starts(ts: Seq<u8>, data: Seq<u8>, verify_trust: bool)
    ensures
        ({
            let start: VerificationView = verify::begun(ts, data, verify_trust);
            match cms::response_signed_data(ts) {
                Ok(Some(signed)) => {
                    &&& verify::found_signed_data(ts) == Some(signed)
                    &&& start == verify::begun_with(Some(signed), data, verify_trust)
                    &&& signed.certificates is None ==> is_refusal(
                        start,
                        "time stamp contains no certificates"@,
                        "timeStamp.untrusted"@,
                    )
                    &&& signed.certificates matches Some(certs) ==> {
                        &&& (exists|k: int|
                            0 <= k < certs.len() && (#[trigger] certs[k]).encoded is None)
                            ==> is_refusal(
                            start,
                            "time stamp certificate could not be processed"@,
                            "timeStamp.untrusted"@,
                        )
                        &&& (forall|k: int|
                            0 <= k < certs.len() ==> (#[trigger] certs[k]).encoded is Some)
                            ==> start == verify::next_signer(
                            ContextView {
                                content: signed.encap_content_info,
                                certs,
                                cert_ders: Seq::new(
                                    certs.len(),
                                    |k: int| certs[k].encoded.unwrap(),
                                ),
                                signer_infos: signed.signer_infos,
                                data,
                                verify_trust,
                            },
                            0,
                            error::TimeStampErrorView::InvalidData,
                            Seq::empty(),
                        )
                    }
                },
                _ => {
                    &&& verify::found_signed_data(ts) is None
                    &&& start == verify::begun_with(None, data, verify_trust)
                    &&& is_refusal(start, "unable to find signed data"@, "timeStamp.malformed"@)
                },
            }
        }),
{
    if let Ok(Some(signed)) = cms::response_signed_data(ts) {
        if let Some(certs) = signed.certificates {
            encodings_are_those_of_all_members(certs);
            if let Some(encodings) = signer::encodings_of(certs) {
                assert(encodings =~= Seq::new(certs.len(), |k: int| certs[k].encoded.unwrap()));
            }
        }
    }
}

/// A verification has ended with a decoding error and a single entry that the time stamp could not
/// be parsed.
pub open spec fn is_refusal(
    verification: VerificationView,
    message: Seq<char>,
    code: Seq<char>,
) -> bool {
    &&& verification matches VerificationView::Finished(outcome)
    &&& outcome.result == Err::<cms::TstInfoView, error::TimeStampErrorView>(
        error::TimeStampErrorView::DecodeError(message),
    )
    &&& outcome.log.len() == 1
    &&& outcome.log[0] == status::finding("could not parse timestamp data"@, code)
}

/// A signature counts as valid only where the validator found it so.
pub proof fn only_valid_signatures_are_valid(outcome: SignatureOutcome)
    ensures
        verify::signature_result(outcome) is Ok <==> outcome is Valid,
        outcome is Invalid ==> verify::signature_result(outcome) == Err::<
            (),
            error::TimeStampErrorView,
        >(error::TimeStampErrorView::InvalidData),
        outcome is Unsupported ==> verify::signature_result(outcome) == Err::<
            (),
            error::TimeStampErrorView,
        >(error::TimeStampErrorView::UnsupportedAlgorithm),
{
}

/// A signer whose signature is not valid is passed over as untrusted.
pub proof fn a_signature_that_is_not_valid_is_not_accepted(
    pending: PendingView,
    candidate: examine::CandidateView,
    outcome: SignatureOutcome,
)
    requires
        pending.phase == PhaseView::Signature(candidate),
        !(outcome is Valid),
    ensures
        verify::with_signature(VerificationView::Pending(pending), outcome) == verify::next_signer(
            pending.context,
            pending.position + 1,
            error::TimeStampErrorView::Untrusted,
            seq![
                status::finding(
                    "timestamp signed data did not match signature"@,
                    "timeStamp.untrusted"@,
                ),
            ],
        ),
{
}

/// A signer whose signature is valid is passed over where the time or the message imprint does
/// not fit. Otherwise it is accepted where trust is not verified, and where it is, its certificate
/// is asked about.
pub proof fn what_follows_a_valid_signature(
    pending: PendingView,
    candidate: examine::CandidateView,
)
    requires
        pending.phase == PhaseView::Signature(candidate),
    ensures
        ({
            let next: VerificationView = verify::with_signature(
                VerificationView::Pending(pending),
                SignatureOutcome::Valid,
            );
            let computed: Option<Seq<u8>> = examine::digest_under(
                candidate.tst.message_imprint.hash_algorithm,
                pending.context.data,
            );
            &&& next == verify::with_valid_signature(pending.context, pending.position, candidate)
            &&& match examine::imprint_verdict(candidate, computed) {
                Err(rejection) => next == verify::next_signer(
                    pending.context,
                    pending.position + 1,
                    rejection.error,
                    seq![rejection.item],
                ),
                Ok(item) => {
                    &&& !pending.context.verify_trust ==> next == VerificationView::Finished(
                        OutcomeView { result: Ok(candidate.tst), log: seq![item] },
                    )
                    &&& pending.context.verify_trust ==> match chain::leaf_to_root(
                        pending.context.cert_ders,
                        candidate.cert_pos,
                    ) {
                        Err(error) => next == VerificationView::Finished(
                            OutcomeView { result: Err(error), log: Seq::empty() },
                        ),
                        Ok(ordered) => next matches VerificationView::Pending(asked) && {
                            &&& asked.context == pending.context
                            &&& asked.position == pending.position
                            &&& asked.log == seq![item]
                            &&& asked.phase matches PhaseView::Profile(trial)
                            &&& trial.common_name == candidate.common_name
                            &&& trial.request.chain == ordered
                            &&& trial.request.valid_eku == "1.3.6.1.5.5.7.3.8"@
                            &&& trial.request.signing_time == candidate.tst.gen_time.seconds
                            &&& trial.request.tst == candidate.tst
                            &&& trial.request.log == seq![item]
                        },
                    }
                },
            }
        }),
{
}

/// A certificate that fits the profile is asked about once more, for the same request; one that
/// does not is not trusted. Either way the log keeps what it had, and what the check wrote.
pub proof fn what_follows_the_check_of_the_profile(
    pending: PendingView,
    trial: TrialView,
    outcome: ProfileOutcomeView,
)
    requires
        pending.phase == PhaseView::Profile(trial),
    ensures
        outcome.passed ==> verify::with_profile(VerificationView::Pending(pending), outcome)
            == VerificationView::Pending(
            PendingView {
                context: pending.context,
                position: pending.position,
                phase: PhaseView::Trust(trial),
                log: pending.log + outcome.log,
            },
        ),
        !outcome.passed ==> verify::with_profile(VerificationView::Pending(pending), outcome)
            == verify::next_signer(
            pending.context,
            pending.position + 1,
            error::TimeStampErrorView::Untrusted,
            (pending.log + outcome.log).push(
                status::finding(
                    "timestamp cert untrusted: "@ + trial.common_name,
                    "timeStamp.untrusted"@,
                ),
            ),
        ),
{
}

/// A signer whose certificate is trusted is accepted, with the time stamp information that was
/// asked about; one whose certificate is not is passed over.
pub proof fn what_follows_the_check_of_trust(pending: PendingView, trial: TrialView)
    requires
        pending.phase == PhaseView::Trust(trial),
    ensures
        verify::with_trust(VerificationView::Pending(pending), true) == VerificationView::Finished(
            OutcomeView {
                result: Ok(trial.request.tst),
                log: pending.log.push(
                    status::achievement(
                        "timestamp cert trusted: "@ + trial.common_name,
                        "timeStamp.trusted"@,
                    ),
                ),
            },
        ),
        verify::with_trust(VerificationView::Pending(pending), false) == verify::next_signer(
            pending.context,
            pending.position + 1,
            error::TimeStampErrorView::Untrusted,
            pending.log.push(
                status::finding(
                    "timestamp cert untrusted: "@ + trial.common_name,
                    "timeStamp.untrusted"@,
                ),
            ),
        ),
        verify::untrusted(pending.context, pending.position, trial, pending.log)
            == verify::with_trust(VerificationView::Pending(pending), false),
{
}

/// An answer that a verification does not wait for changes nothing.
pub proof fn other_answers_change_nothing(
    verification: VerificationView,
    signature: SignatureOutcome,
    profile: ProfileOutcomeView,
    trusted: bool,
)
    ensures
        !(verification matches VerificationView::Pending(pending) && pending.phase is Signature)
            ==> verify::with_signature(verification, signature) == verification,
        !(verification matches VerificationView::Pending(pending) && pending.phase is Profile)
            ==> verify::with_profile(verification, profile) == verification,
        !(verification matches VerificationView::Pending(pending) && pending.phase is Trust)
            ==> verify::with_trust(verification, trusted) == verification,
{
}

/// A verification ends where it has ended, and otherwise goes on with the answer that it waits
/// for.
pub proof fn answers_are_given_one_by_one(
    verification: VerificationView,
    replies: spec_fn(int) -> Replies,
)
    ensures
        verification matches VerificationView::Finished(outcome) ==> verify::run(
            verification,
            replies,
        ) == outcome,
        verification matches VerificationView::Pending(pending) ==> {
            let reply: Replies = replies(pending.position);
            let next: VerificationView = match pending.phase {
                PhaseView::Signature(_) => verify::with_signature(verification, reply.signature),
                PhaseView::Profile(_) => verify::with_profile(verification, reply.profile),
                PhaseView::Trust(_) => verify::with_trust(verification, reply.trust),
            };
            &&& verify::answered(pending, reply) == next
            &&& verify::run(verification, replies) == verify::run(next, replies)
        },
{
    if let VerificationView::Pending(pending) = verification {
        verify::answers_make_progress(pending, replies(pending.position));
    }
}

/// An answer can be given exactly when the check that is asked returns it for the request, and a
/// verification ends only with answers that can be given.
pub proof fn answers_are_those_of_the_checks<
    S: Fn(&SignatureRequest) -> SignatureOutcome,
    P: Fn(&TrustRequest) -> ProfileOutcome,
    T: Fn(&TrustRequest) -> bool,
>(checks: Checks<S, P, T>, pending: PendingView, reply: Replies)
    ensures
        checks.can_answer(pending, reply) <==> match pending.phase {
            PhaseView::Signature(candidate) => exists|r: SignatureRequest|
                r.deep_view() == candidate.request && #[trigger] call_ensures(
                    checks.signature,
                    (&r,),
                    reply.signature,
                ),
            PhaseView::Profile(trial) => exists|r: TrustRequest, o: ProfileOutcome|
                r.deep_view() == trial.request && o.deep_view() == reply.profile
                    && #[trigger] call_ensures(checks.profile, (&r,), o),
            PhaseView::Trust(trial) => exists|r: TrustRequest|
                r.deep_view() == trial.request && #[trigger] call_ensures(
                    checks.trust,
                    (&r,),
                    reply.trust,
                ),
        },
{
}

/// A verification ends as it would with one of the answers that it can be given next.
pub proof fn an_end_is_reached_by_answers<
    S: Fn(&SignatureRequest) -> SignatureOutcome,
    P: Fn(&TrustRequest) -> ProfileOutcome,
    T: Fn(&TrustRequest) -> bool,
>(checks: Checks<S, P, T>, verification: VerificationView, outcome: OutcomeView)
    requires
        checks.can_end_with(verification, outcome),
    ensures
        match verification {
            VerificationView::Finished(end) => outcome == end,
            VerificationView::Pending(pending) => exists|reply: Replies| #[trigger]
                checks.can_answer(pending, reply) && checks.can_end_with(
                    verify::answered(pending, reply),
                    outcome,
                ),
        },
{
    let replies: spec_fn(int) -> Replies = choose|replies: spec_fn(int) -> Replies| #[trigger]
        checks.can_give(verification, replies) && outcome == verify::run(verification, replies);
    if let VerificationView::Pending(pending) = verification {
        let reply: Replies = replies(pending.position);
        verify::answers_make_progress(pending, reply);
        let next: VerificationView = verify::answered(pending, reply);
        assert(checks.can_give(next, replies) && outcome == verify::run(next, replies));
        assert(checks.can_answer(pending, reply));
    }
}

} // verus!
