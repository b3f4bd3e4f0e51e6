# time_stamp

Verification of time stamps, signed tokens by which an authority states when some data existed,
written and proved in Verus.

`verify_time_stamp` decodes a time stamp response, looks at the signers of its token one after
the other, and accepts the first one whose signed attributes, signature, validity period and
message imprint hold. Where trust is verified, the certificate of the signer is checked as well,
with the chain from that certificate up to the root. `tsa_signer_cert_der_from_token` and
`tsa_cert_chain_der_from_token` hand out the certificates of the authority without verifying the
token.

Checks of signatures and of certificates are left to the caller: `verify_time_stamp` takes them as
functions, and `verify::Verification` is the same verification as a sequence of questions and
answers, for callers that have to wait for an answer.

| module    | holds                                                                     |
|-----------|---------------------------------------------------------------------------|
| `cms`     | what a token holds, as plain values, and its decoding                     |
| `chain`   | the order of certificates from a leaf up to the root                      |
| `signer`  | the certificate that a signer names                                       |
| `examine` | what is checked of a signer before and after its signature                |
| `verify`  | the verification as a whole                                               |
| `laws`    | what holds of every verification                                          |
| `digest`  | digest algorithms                                                         |
| `oid`, `text`, `time`, `status`, `error` | object identifiers, texts, times, the log, the errors |

`app/` holds a front end that looks validators and a trust policy up at run time, synchronously
and asynchronously.
