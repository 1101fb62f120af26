//! The key registry: parsing a delimited list of `(hex secret, offset)`
//! pairs into validated records, with an exact specification of which
//! registries are accepted and which error each rejected registry earns.

use vstd::prelude::*;
use crate::bytesutil::{all_digits, dec_value, split_at, trimmed, views_of};
use crate::bytesutil::{parse_decimal, split_bytes, trim_bytes};
use crate::hexcode::{hex_decoded, hex_ok, strip_hex_prefix};
use crate::hexcode::{decode_hex, strip_prefix};
use crate::{BUFFER_LEN, SECRET_LEN};

verus! {

/// Delimiter between registry entries.
pub const ENTRY_DELIM: u8 = 59;  // b';'

/// Delimiter between the two fields of one entry.
pub const FIELD_DELIM: u8 = 44;  // b','

/// A validated registry entry: one secret and the buffer offset where it is
/// to be written.
#[derive(Debug)]
pub struct SecretRecord {
    pub secret: Vec<u8>,
    pub offset: usize,
}

/// The mathematical model of a record.
pub struct RecordModel {
    pub secret: Seq<u8>,
    pub offset: int,
}

impl SecretRecord {
    /// The model that this record denotes.
    pub open spec fn model(self) -> RecordModel {
        RecordModel { secret: self.secret@, offset: self.offset as int }
    }

    /// A record is well formed when its secret has the fixed length and its
    /// range lies inside the buffer.
    pub open spec fn wf(self) -> bool {
        self.secret@.len() == SECRET_LEN && self.offset + SECRET_LEN <= BUFFER_LEN
    }
}

/// The models of a sequence of records.
pub open spec fn models_of(rs: Seq<SecretRecord>) -> Seq<RecordModel> {
    rs.map_values(|r: SecretRecord| r.model())
}

/// Why a registry was rejected, and at which entry.
#[derive(Debug, Clone, Copy, PartialEq, Eq, Structural)]
pub enum ConfigError {
    /// The entry does not hold exactly two fields.
    FieldCount { index: usize },
    /// The first field is not well-formed hexadecimal.
    InvalidHex { index: usize },
    /// The first field decodes to `len` bytes instead of `SECRET_LEN`.
    SecretLength { index: usize, len: usize },
    /// The second field is not a non-negative decimal numeral.
    InvalidOffset { index: usize },
    /// The offset would place the secret beyond the end of the buffer.
    OffsetOutOfRange { index: usize, offset: usize },
}

/// What one registry entry means on its own.
pub enum EntryOutcome {
    /// Whitespace-only entry: skipped.
    Blank,
    /// A valid record.
    Parsed(RecordModel),
    /// Not exactly two fields.
    BadFieldCount,
    /// The secret field is not well-formed hexadecimal.
    BadHex,
    /// The secret decodes to the wrong number of bytes.
    BadSecretLen { len: int },
    /// The offset field is not a parsable non-negative numeral.
    BadOffset,
    /// The offset pushes the secret past the buffer's end.
    OffsetRange { offset: int },
}

/// The outcome of one entry: blank entries are skipped; otherwise the entry
/// must hold a hex secret of exactly `SECRET_LEN` bytes (after an optional
/// `0x` prefix) and an offset that keeps the secret inside the buffer.
pub open spec fn entry_outcome(entry: Seq<u8>) -> EntryOutcome {
    if trimmed(entry).len() == 0 {
        EntryOutcome::Blank
    } else {
        let fields = split_at(entry, FIELD_DELIM);
        if fields.len() != 2 {
            EntryOutcome::BadFieldCount
        } else {
            let h = strip_hex_prefix(trimmed(fields[0]));
            if !hex_ok(h) {
                EntryOutcome::BadHex
            } else if hex_decoded(h).len() != SECRET_LEN {
                EntryOutcome::BadSecretLen { len: hex_decoded(h).len() as int }
            } else {
                let o = trimmed(fields[1]);
                if !all_digits(o) || dec_value(o) > usize::MAX {
                    EntryOutcome::BadOffset
                } else if dec_value(o) + SECRET_LEN > BUFFER_LEN {
                    EntryOutcome::OffsetRange { offset: dec_value(o) }
                } else {
                    EntryOutcome::Parsed(
                        RecordModel { secret: hex_decoded(h), offset: dec_value(o) },
                    )
                }
            }
        }
    }
}

/// The outcome of a whole registry: the records of its entries in order, or
/// its first error together with the index of the offending entry.
pub enum RegistryOutcome {
    Accepted(Seq<RecordModel>),
    Rejected { index: int, kind: EntryOutcome },
}

/// The outcome of the entries from position `i` on.
pub open spec fn outcome_from(entries: Seq<Seq<u8>>, i: int) -> RegistryOutcome
    decreases entries.len() - i,
{
    if i < 0 || i >= entries.len() {
        RegistryOutcome::Accepted(Seq::empty())
    } else {
        match entry_outcome(entries[i]) {
            EntryOutcome::Blank => outcome_from(entries, i + 1),
            EntryOutcome::Parsed(r) => match outcome_from(entries, i + 1) {
                RegistryOutcome::Accepted(rest) => RegistryOutcome::Accepted(seq![r] + rest),
                rejected => rejected,
            },
            bad => RegistryOutcome::Rejected { index: i, kind: bad },
        }
    }
}

/// The outcome of a registry string: its entries are the pieces between
/// entry delimiters.
pub open spec fn registry_outcome(s: Seq<u8>) -> RegistryOutcome {
    outcome_from(split_at(s, ENTRY_DELIM), 0)
}

/// The error value that a rejected entry earns.
pub open spec fn error_for(index: int, kind: EntryOutcome) -> ConfigError {
    match kind {
        EntryOutcome::BadHex => ConfigError::InvalidHex { index: index as usize },
        EntryOutcome::BadSecretLen { len } => ConfigError::SecretLength {
            index: index as usize,
            len: len as usize,
        },
        EntryOutcome::BadOffset => ConfigError::InvalidOffset { index: index as usize },
        EntryOutcome::OffsetRange { offset } => ConfigError::OffsetOutOfRange {
            index: index as usize,
            offset: offset as usize,
        },
        _ => ConfigError::FieldCount { index: index as usize },
    }
}

/// Parses a registry string into validated records.
///
/// The string is split on `;`; whitespace-only entries are skipped; every
/// other entry must hold a hex secret of exactly `SECRET_LEN` bytes and a
/// decimal offset that keeps the secret inside the buffer. The first
/// violation rejects the whole registry with an error naming the entry.
pub fn load_keys(registry: &Vec<u8>) -> (r: Result<Vec<SecretRecord>, ConfigError>)
    ensures
        match r {
            Ok(recs) => {
                &&& registry_outcome(registry@) matches RegistryOutcome::Accepted(models)
                    && models == models_of(recs@)
                &&& forall|k: int| 0 <= k < recs@.len() ==> (#[trigger] recs@[k]).wf()
            },
            Err(e) => registry_outcome(registry@) matches RegistryOutcome::Rejected {
                index,
                kind,
            } && e == error_for(index, kind),
        },
{
    let entries = split_bytes(registry, ENTRY_DELIM);
    let ghost entry_views = views_of(entries@);
    let mut recs: Vec<SecretRecord> = Vec::new();
    let mut i: usize = 0;
    proof {
        assert(models_of(recs@) =~= Seq::<RecordModel>::empty());
    }
    while i < entries.len()
        invariant
            0 <= i <= entries@.len(),
            entry_views == views_of(entries@),
            entry_views == split_at(registry@, ENTRY_DELIM),
            forall|k: int| 0 <= k < recs@.len() ==> (#[trigger] recs@[k]).wf(),
            outcome_from(entry_views, i as int) matches RegistryOutcome::Accepted(rest)
                ==> registry_outcome(registry@) == RegistryOutcome::Accepted(
                models_of(recs@) + rest,
            ),
            outcome_from(entry_views, i as int) matches RegistryOutcome::Rejected { index, kind }
                ==> registry_outcome(registry@) == outcome_from(entry_views, i as int),
        decreases entries@.len() - i,
    {
        let entry = &entries[i];
        let ghost entry_view = entry_views[i as int];
        proof {
            assert(entry@ == entry_view);
        }
        let t = trim_bytes(entry);
        if t.len() == 0 {
            proof {
                assert(entry_outcome(entry_view) == EntryOutcome::Blank);
            }
            i = i + 1;
            continue ;
        }
        let fields = split_bytes(entry, FIELD_DELIM);
        proof {
            assert(views_of(fields@) == split_at(entry_view, FIELD_DELIM));
        }
        if fields.len() != 2 {
            proof {
                assert(entry_outcome(entry_view) == EntryOutcome::BadFieldCount);
            }
            return Err(ConfigError::FieldCount { index: i });
        }
        let hex_field = trim_bytes(&fields[0]);
        let hex_body = strip_prefix(&hex_field);
        proof {
            assert(fields@[0]@ == views_of(fields@)[0]);
            assert(hex_body@ == strip_hex_prefix(trimmed(split_at(entry_view, FIELD_DELIM)[0])));
        }
        let secret = match decode_hex(&hex_body) {
            Ok(s) => s,
            Err(_) => {
                proof {
                    assert(entry_outcome(entry_view) == EntryOutcome::BadHex);
                }
                return Err(ConfigError::InvalidHex { index: i });
            },
        };
        if secret.len() != SECRET_LEN {
            proof {
                assert(entry_outcome(entry_view) == (EntryOutcome::BadSecretLen {
                    len: secret@.len() as int,
                }));
            }
            return Err(ConfigError::SecretLength { index: i, len: secret.len() });
        }
        let offset_field = trim_bytes(&fields[1]);
        proof {
            assert(fields@[1]@ == views_of(fields@)[1]);
            assert(offset_field@ == trimmed(split_at(entry_view, FIELD_DELIM)[1]));
        }
        let offset = match parse_decimal(&offset_field) {
            Ok(o) => o,
            Err(_) => {
                proof {
                    assert(entry_outcome(entry_view) == EntryOutcome::BadOffset);
                }
                return Err(ConfigError::InvalidOffset { index: i });
            },
        };
        if offset > BUFFER_LEN - SECRET_LEN {
            proof {
                assert(entry_outcome(entry_view) == (EntryOutcome::OffsetRange {
                    offset: offset as int,
                }));
            }
            return Err(ConfigError::OffsetOutOfRange { index: i, offset });
        }
        let rec = SecretRecord { secret, offset };
        proof {
            assert(entry_outcome(entry_view) == EntryOutcome::Parsed(rec.model()));
            assert(models_of(recs@.push(rec)) =~= models_of(recs@).push(rec.model()));
            let out_i = outcome_from(entry_views, i as int);
            let out_n = outcome_from(entry_views, i + 1);
            match out_n {
                RegistryOutcome::Accepted(rest) => {
                    assert(out_i == RegistryOutcome::Accepted(seq![rec.model()] + rest));
                    assert(models_of(recs@) + (seq![rec.model()] + rest) =~= models_of(
                        recs@.push(rec),
                    ) + rest);
                },
                RegistryOutcome::Rejected { .. } => {
                    assert(out_i == out_n);
                },
            }
        }
        recs.push(rec);
        i = i + 1;
    }
    proof {
        assert(outcome_from(entry_views, i as int) == RegistryOutcome::Accepted(
            Seq::<RecordModel>::empty(),
        ));
        assert(models_of(recs@) + Seq::<RecordModel>::empty() =~= models_of(recs@));
    }
    Ok(recs)
}

} // verus!
