# indy_credx_issuer

The issuer's side of Indy anonymous credentials, written in Rust and verified with Verus.

An issuer publishes a schema, makes a credential definition for it, offers credentials, signs
them for the holders that ask, and, where the definition supports it, keeps a registry in which
credentials are revoked. Each of these steps is a function of the module `issuer`, with a
contract that says what it returns and when it fails.

| Module | What it holds |
| --- | --- |
| `issuer` | the issuer's functions |
| `laws` | what holds of these functions taken together |
| `types` | schemas, definitions, registries, offers, requests and credentials |
| `identifiers`, `qualified` | identifiers, with and without a method |
| `helpers`, `names` | attribute names and values, as keys know them |
| `tails` | where the tails of a registry are kept; users implement it |
| `numbers`, `points` | the numbers and points of keys and registries, as their texts show them |
| `error` | the errors |
| `cl` | the types and functions of the signature scheme |

The signature scheme is that of `anoncreds-clsignatures`, and the identifiers are those of
`indy-data-types` and `indy-utils`. What the library relies on of these crates is stated where it
is used, in the contracts of the wrappers and in the assumed specifications; each has a comment
that names the function and says what is taken from it.

Some functions come with another one whose name ends in `_with_key`, `_with_fetched_key`,
`_from_keys`, `_from_parts` or `_from_signing`. It takes as an argument what the first one draws
or fetches, and says what comes of each such value.

The signature scheme panics, or does not return, on points and private numbers that are out of
bounds, and on requests whose proof lacks a value. A function that relies on it asks for what is
in bounds. Beside it stands one whose name ends in `_checked`: it tests its input first, and
returns `None` where the other cannot be called. The test reads the text form of points and
private numbers, and the scheme cannot write a number of more than seventy hexadecimal digits, or
a negative one. So the `_checked` functions ask that these numbers can be written. All that the
library makes is in bounds, and what is in bounds can be written.
