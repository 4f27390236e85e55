//! Commands and the transactions that present them.

use vstd::prelude::*;

use crate::text::{decimal_u64, has_text, to_uppercase};
use crate::types::{
    copy_text, text_or_empty, InternalCommandMetadata, InternalCommandType, InternalCommandView,
    IxUserCommand, Transaction, TransactionIdentifier, TransactionStatus, UserCommandMetadata,
    UserCommandType, UserCommandView,
};

verus! {

/// The Mina account-creation fee in nanomina: a protocol constant, 1 MINA.
pub const ACCOUNT_CREATION_FEE: u64 = 1_000_000_000;

/// The type of the user commands whose kind reads `upper` in upper case.
pub open spec fn upper_kind_type(upper: Seq<char>) -> UserCommandType {
    if crate::text::contains_text(upper, "DELEG"@) {
        UserCommandType::Delegation
    } else {
        UserCommandType::Payment
    }
}

/// The type of the user commands of a kind of the indexer. Case does not matter.
pub open spec fn kind_type(kind: Seq<char>) -> UserCommandType {
    upper_kind_type(crate::text::uppercase(kind))
}

/// Tells delegations from payments by the upper-case kind.
pub fn upper_kind_command_type(upper: &str) -> (command_type: UserCommandType)
    ensures
        command_type == upper_kind_type(upper@),
{
    if has_text(upper, "DELEG") {
        UserCommandType::Delegation
    } else {
        UserCommandType::Payment
    }
}

/// Tells delegations from payments by the kind that the indexer gives.
pub fn kind_command_type(kind: &str) -> (command_type: UserCommandType)
    ensures
        command_type == kind_type(kind@),
{
    upper_kind_command_type(to_uppercase(kind).as_str())
}

/// The account-creation fee in decimal, if it was paid.
pub open spec fn creation_fee_text(paid: bool) -> Option<Seq<char>> {
    if paid {
        Some(crate::text::decimal(ACCOUNT_CREATION_FEE as nat))
    } else {
        None
    }
}

/// The account-creation fee in decimal, if it was paid.
pub(crate) fn creation_fee(paid: bool) -> (fee: Option<String>)
    ensures
        fee.deep_view() == creation_fee_text(paid),
{
    if paid {
        Some(decimal_u64(ACCOUNT_CREATION_FEE))
    } else {
        None
    }
}

impl IxUserCommand {
    /// What the archive would store of this command, taken as a command of the given type: a
    /// payment has an amount, a delegation none.
    pub open spec fn metadata_as(self, command_type: UserCommandType) -> UserCommandView {
        UserCommandView {
            command_type,
            nonce: self.nonce as int,
            amount: match command_type {
                UserCommandType::Payment => Some(crate::text::decimal(self.amount as nat)),
                UserCommandType::Delegation => None,
            },
            fee: Some(crate::text::decimal(self.fee as nat)),
            valid_until: None,
            memo: Some(self.memo@),
            hash: self.hash@,
            fee_payer: self.from@,
            source: self.from@,
            receiver: crate::types::or_empty(self.to.deep_view()),
            status: if self.is_applied {
                TransactionStatus::Applied
            } else {
                TransactionStatus::Failed
            },
            failure_reason: self.failure_reason.deep_view(),
            creation_fee: creation_fee_text(self.receiver_account_creation_fee_paid),
        }
    }

    /// What the archive would store of this command.
    pub open spec fn metadata(self) -> UserCommandView {
        self.metadata_as(kind_type(self.kind@))
    }

    /// Whether the indexer tells the same of two commands.
    pub open spec fn same_as(self, other: IxUserCommand) -> bool {
        &&& self.kind@ == other.kind@
        &&& self.amount == other.amount
        &&& self.nonce == other.nonce
        &&& self.fee == other.fee
        &&& self.memo@ == other.memo@
        &&& self.hash@ == other.hash@
        &&& self.from@ == other.from@
        &&& self.to.deep_view() == other.to.deep_view()
        &&& self.is_applied == other.is_applied
        &&& self.failure_reason.deep_view() == other.failure_reason.deep_view()
        &&& self.receiver_account_creation_fee_paid == other.receiver_account_creation_fee_paid
    }

    /// Puts the command, taken as one of the given type, in the archive's shape.
    pub fn to_metadata_as(&self, command_type: UserCommandType) -> (metadata: UserCommandMetadata)
        ensures
            metadata@ == self.metadata_as(command_type),
    {
        let amount = match command_type {
            UserCommandType::Payment => Some(decimal_u64(self.amount)),
            UserCommandType::Delegation => None,
        };
        UserCommandMetadata {
            command_type,
            nonce: self.nonce as i64,
            amount,
            fee: Some(decimal_u64(self.fee)),
            valid_until: None,
            memo: Some(self.memo.clone()),
            hash: self.hash.clone(),
            fee_payer: self.from.clone(),
            source: self.from.clone(),
            receiver: text_or_empty(&self.to),
            status: if self.is_applied {
                TransactionStatus::Applied
            } else {
                TransactionStatus::Failed
            },
            failure_reason: copy_text(&self.failure_reason),
            creation_fee: creation_fee(self.receiver_account_creation_fee_paid),
        }
    }

    /// Puts the command in the archive's shape.
    pub fn to_metadata(&self) -> (metadata: UserCommandMetadata)
        ensures
            metadata@ == self.metadata(),
    {
        self.to_metadata_as(kind_command_type(self.kind.as_str()))
    }
}

/// What presents commands as Rosetta transactions: the functions that give a command's
/// operations and metadata, and an internal command's identifier.
pub struct TransactionGenerators<UO, UM, II, IO> where
    UO: Fn(&UserCommandMetadata) -> Vec<coinbase_mesh::models::Operation>,
    UM: Fn(&UserCommandMetadata) -> Option<serde_json::Value>,
    II: Fn(&InternalCommandType, i32, i32, &String) -> String,
    IO: Fn(&InternalCommandMetadata) -> Vec<coinbase_mesh::models::Operation>,
 {
    /// The operations of a user command.
    pub operations_user_command: UO,
    /// The metadata of a user command's transaction.
    pub transaction_metadata: UM,
    /// The identifier of an internal command's transaction, from the command's type, its sequence
    /// number, its secondary sequence number and its hash.
    pub internal_command_transaction_identifier: II,
    /// The operations of an internal command.
    pub operations_internal_command: IO,
}

impl<UO, UM, II, IO> TransactionGenerators<UO, UM, II, IO> where
    UO: Fn(&UserCommandMetadata) -> Vec<coinbase_mesh::models::Operation>,
    UM: Fn(&UserCommandMetadata) -> Option<serde_json::Value>,
    II: Fn(&InternalCommandType, i32, i32, &String) -> String,
    IO: Fn(&InternalCommandMetadata) -> Vec<coinbase_mesh::models::Operation>,
 {
    /// Whether the functions accept every command.
    pub open spec fn total(&self) -> bool {
        &&& forall|m: &UserCommandMetadata| #[trigger]
            call_requires(self.operations_user_command, (m,))
        &&& forall|m: &UserCommandMetadata| #[trigger]
            call_requires(self.transaction_metadata, (m,))
        &&& forall|t: &InternalCommandType, s: i32, u: i32, h: &String| #[trigger]
            call_requires(self.internal_command_transaction_identifier, (t, s, u, h))
        &&& forall|m: &InternalCommandMetadata| #[trigger]
            call_requires(self.operations_internal_command, (m,))
    }

    /// Whether the functions give one result for each user command.
    pub open spec fn single_valued(&self) -> bool {
        &&& forall|
            m: UserCommandMetadata,
            n: UserCommandMetadata,
            a: Vec<coinbase_mesh::models::Operation>,
            b: Vec<coinbase_mesh::models::Operation>,
        |
            m@ == n@ && #[trigger] call_ensures(self.operations_user_command, (&m,), a)
                && #[trigger] call_ensures(self.operations_user_command, (&n,), b) ==> a@ == b@
        &&& forall|
            m: UserCommandMetadata,
            n: UserCommandMetadata,
            a: Option<serde_json::Value>,
            b: Option<serde_json::Value>,
        |
            m@ == n@ && #[trigger] call_ensures(self.transaction_metadata, (&m,), a)
                && #[trigger] call_ensures(self.transaction_metadata, (&n,), b) ==> a == b
    }

    /// Whether `transaction` presents a user command: it carries the command's hash, and the
    /// operations and the metadata that the functions give for the command.
    pub open spec fn presents_user(
        &self,
        command: UserCommandView,
        transaction: Transaction,
    ) -> bool {
        &&& transaction.transaction_identifier.hash@ == command.hash
        &&& transaction.related_transactions is None
        &&& exists|m: UserCommandMetadata|
            {
                &&& m@ == command
                &&& #[trigger] call_ensures(
                    self.operations_user_command,
                    (&m,),
                    transaction.operations,
                )
                &&& call_ensures(self.transaction_metadata, (&m,), transaction.metadata)
            }
    }

    /// Whether `transaction` presents an internal command: it carries the identifier and the
    /// operations that the functions give for the command, and no metadata.
    pub open spec fn presents_internal(
        &self,
        command: InternalCommandView,
        transaction: Transaction,
    ) -> bool {
        &&& transaction.related_transactions is None
        &&& transaction.metadata is None
        &&& exists|m: InternalCommandMetadata|
            {
                &&& m@ == command
                &&& #[trigger] call_ensures(
                    self.operations_internal_command,
                    (&m,),
                    transaction.operations,
                )
                &&& call_ensures(
                    self.internal_command_transaction_identifier,
                    (&m.command_type, m.sequence_no, m.secondary_sequence_no, &m.hash),
                    transaction.transaction_identifier.hash,
                )
            }
    }

    /// Presents a user command.
    pub fn user_command_transaction(&self, meta: &UserCommandMetadata) -> (transaction: Transaction)
        requires
            self.total(),
        ensures
            self.presents_user(meta@, transaction),
    {
        let metadata = (self.transaction_metadata)(meta);
        let operations = (self.operations_user_command)(meta);
        let transaction = Transaction {
            transaction_identifier: TransactionIdentifier { hash: meta.hash.clone() },
            operations,
            related_transactions: None,
            metadata,
        };
        proof {
            assert(call_ensures(self.operations_user_command, (meta,), transaction.operations));
            assert(call_ensures(self.transaction_metadata, (meta,), transaction.metadata));
        }
        transaction
    }

    /// Presents an internal command: a coinbase or a fee transfer.
    pub fn internal_command_transaction(&self, meta: &InternalCommandMetadata) -> (transaction:
        Transaction)
        requires
            self.total(),
        ensures
            self.presents_internal(meta@, transaction),
    {
        let id = (self.internal_command_transaction_identifier)(
            &meta.command_type,
            meta.sequence_no,
            meta.secondary_sequence_no,
            &meta.hash,
        );
        let operations = (self.operations_internal_command)(meta);
        let transaction = Transaction {
            transaction_identifier: TransactionIdentifier { hash: id },
            operations,
            related_transactions: None,
            metadata: None,
        };
        proof {
            assert(call_ensures(self.operations_internal_command, (meta,), transaction.operations));
            assert(call_ensures(
                self.internal_command_transaction_identifier,
                (&meta.command_type, meta.sequence_no, meta.secondary_sequence_no, &meta.hash),
                transaction.transaction_identifier.hash,
            ));
        }
        transaction
    }
}

/// A user command of the indexer is a delegation exactly if its kind has `DELEG` somewhere in it,
/// once it is in upper case, and else a payment.
pub proof fn delegations_say_so(kind: Seq<char>, before: Seq<char>, after: Seq<char>)
    ensures
        crate::text::uppercase(kind) == before + "DELEG"@ + after ==> kind_type(kind)
            == UserCommandType::Delegation,
        kind_type(kind) == UserCommandType::Delegation ==> exists|b: Seq<char>, a: Seq<char>|
            crate::text::uppercase(kind) == #[trigger] (b + "DELEG"@ + a),
        kind_type(kind) == UserCommandType::Delegation || kind_type(kind)
            == UserCommandType::Payment,
{
    crate::text::joined_text_contains_its_parts(before, "DELEG"@, after);
    if kind_type(kind) == UserCommandType::Delegation {
        let around = crate::text::contained_text_splits_the_whole(
            crate::text::uppercase(kind),
            "DELEG"@,
        );
        assert(crate::text::uppercase(kind) == (around.0 + "DELEG"@ + around.1));
    }
}

/// A reported command tells what the indexer tells of it, be it a payment or a delegation: who sent
/// it and who receives it, its fee, nonce, memo and hash, and what became of it. Only its type and
/// its amount depend on the kind: a payment moves the amount, a delegation none.
pub proof fn reported_command_tells_what_the_indexer_tells(
    command: IxUserCommand,
    command_type: UserCommandType,
)
    ensures
        ({
            let told = command.metadata_as(command_type);
            &&& told.command_type == command_type
            &&& told.hash == command.hash@
            &&& told.fee_payer == command.from@
            &&& told.source == command.from@
            &&& command.to matches Some(t) ==> told.receiver == t@
            &&& command.to is None ==> told.receiver.len() == 0
            &&& told.nonce == command.nonce
            &&& told.memo == Some(command.memo@)
            &&& told.valid_until is None
            &&& command.is_applied <==> told.status == TransactionStatus::Applied
            &&& !command.is_applied <==> told.status == TransactionStatus::Failed
            &&& command.failure_reason matches Some(r) ==> told.failure_reason == Some(r@)
            &&& command.failure_reason is None ==> told.failure_reason is None
        }),
{
}

/// The amounts of a reported command are those of the indexer, in plain decimal: the fee, and for a
/// payment what it moves. The account-creation fee is 1 MINA where it was paid, and else there is
/// none.
pub proof fn reported_amounts_are_those_of_the_indexer(
    command: IxUserCommand,
    command_type: UserCommandType,
)
    ensures
        ({
            let told = command.metadata_as(command_type);
            &&& told.fee matches Some(fee) && is_plain_decimal(fee, command.fee)
            &&& command_type == UserCommandType::Payment ==> (told.amount matches Some(amount)
                && is_plain_decimal(amount, command.amount))
            &&& command_type == UserCommandType::Delegation ==> told.amount is None
            &&& command.receiver_account_creation_fee_paid ==> (told.creation_fee matches Some(fee)
                && is_plain_decimal(fee, 1_000_000_000))
            &&& !command.receiver_account_creation_fee_paid ==> told.creation_fee is None
        }),
{
    decimals_spell_their_number(command.fee);
    decimals_spell_their_number(command.amount);
    decimals_spell_their_number(ACCOUNT_CREATION_FEE);
}

/// Whether a text spells a number, and does so without a sign and without leading zeros.
pub open spec fn is_plain_decimal(text: Seq<char>, n: u64) -> bool {
    &&& crate::text::parsed_u64(text) == Ok::<nat, crate::text::ParseIntError>(n as nat)
    &&& text.len() > 0
    &&& text[0] == '0' ==> text.len() == 1
    &&& forall|i: int| 0 <= i < text.len() ==> '0' <= #[trigger] text[i] <= '9'
}

/// The decimal digits of a number spell it.
pub proof fn decimals_spell_their_number(n: u64)
    ensures
        is_plain_decimal(crate::text::decimal(n as nat), n),
{
    crate::text::decimal_round_trip(n);
    crate::text::decimals_are_plain(n as int);
}

/// A reported command is told by the type that its kind gives it, and by nothing else of the kind:
/// two commands that differ in their kinds alone, but not in their types, are told alike.
pub proof fn kinds_of_one_type_are_told_alike(a: IxUserCommand, b: IxUserCommand)
    requires
        kind_type(a.kind@) == kind_type(b.kind@),
        a.same_as(IxUserCommand { kind: a.kind, ..b }),
    ensures
        a.metadata() == b.metadata(),
        a.metadata().command_type == kind_type(a.kind@),
        a.metadata() == a.metadata_as(kind_type(a.kind@)),
{
}

impl<UO, UM, II, IO> TransactionGenerators<UO, UM, II, IO> where
    UO: Fn(&UserCommandMetadata) -> Vec<coinbase_mesh::models::Operation>,
    UM: Fn(&UserCommandMetadata) -> Option<serde_json::Value>,
    II: Fn(&InternalCommandType, i32, i32, &String) -> String,
    IO: Fn(&InternalCommandMetadata) -> Vec<coinbase_mesh::models::Operation>,
 {
    /// The transaction of a user command carries its hash, and what the functions give for that
    /// very command.
    pub proof fn transactions_carry_their_user_command(
        &self,
        command: UserCommandView,
        transaction: Transaction,
    ) -> (meta: UserCommandMetadata)
        requires
            self.presents_user(command, transaction),
        ensures
            transaction.transaction_identifier.hash@ == command.hash,
            transaction.related_transactions is None,
            meta@ == command,
            meta.hash@ == transaction.transaction_identifier.hash@,
            call_ensures(self.operations_user_command, (&meta,), transaction.operations),
            call_ensures(self.transaction_metadata, (&meta,), transaction.metadata),
    {
        choose|m: UserCommandMetadata|
            {
                &&& m@ == command
                &&& #[trigger] call_ensures(
                    self.operations_user_command,
                    (&m,),
                    transaction.operations,
                )
                &&& call_ensures(self.transaction_metadata, (&m,), transaction.metadata)
            }
    }

    /// The transaction of an internal command carries what the functions give for that very
    /// command: the identifier for its type, its numbers and its hash, and its operations. It has
    /// no metadata.
    pub proof fn transactions_carry_their_internal_command(
        &self,
        command: InternalCommandView,
        transaction: Transaction,
    ) -> (meta: InternalCommandMetadata)
        requires
            self.presents_internal(command, transaction),
        ensures
            transaction.related_transactions is None,
            transaction.metadata is None,
            meta@ == command,
            call_ensures(self.operations_internal_command, (&meta,), transaction.operations),
            call_ensures(
                self.internal_command_transaction_identifier,
                (&meta.command_type, meta.sequence_no, meta.secondary_sequence_no, &meta.hash),
                transaction.transaction_identifier.hash,
            ),
            meta.command_type == command.command_type,
            meta.sequence_no == command.sequence_no,
            meta.secondary_sequence_no == command.secondary_sequence_no,
            meta.hash@ == command.hash,
    {
        choose|m: InternalCommandMetadata|
            {
                &&& m@ == command
                &&& #[trigger] call_ensures(
                    self.operations_internal_command,
                    (&m,),
                    transaction.operations,
                )
                &&& call_ensures(
                    self.internal_command_transaction_identifier,
                    (&m.command_type, m.sequence_no, m.secondary_sequence_no, &m.hash),
                    transaction.transaction_identifier.hash,
                )
            }
    }

    /// Functions that accept every command are all that is asked for.
    pub proof fn accepting_every_command_is_enough(&self)
        requires
            forall|m: &UserCommandMetadata| #[trigger]
                call_requires(self.operations_user_command, (m,)),
            forall|m: &UserCommandMetadata| #[trigger]
                call_requires(self.transaction_metadata, (m,)),
            forall|t: &InternalCommandType, s: i32, u: i32, h: &String| #[trigger]
                call_requires(self.internal_command_transaction_identifier, (t, s, u, h)),
            forall|m: &InternalCommandMetadata| #[trigger]
                call_requires(self.operations_internal_command, (m,)),
        ensures
            self.total(),
    {
    }
}

} // verus!
