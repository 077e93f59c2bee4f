//! Discriminators: the fixed-width tags by which instructions and account
//! kinds are told apart.

use vstd::prelude::*;
use vstd::string::*;
use vstd::utf8::encode_utf8;
use sha2::Digest;
use crate::my_idl::{Account, AccountView, Instruction, InstructionView};

verus! {

/// A discriminator: the bytes of a tag.
pub type Discriminator = Vec<u8>;

/// The SHA-256 digest of `data`.
pub uninterp spec fn sha256(data: Seq<u8>) -> Seq<u8>;

/// `sha2::Sha256::digest`: the SHA-256 digest of `data`, which has 32 bytes.
#[verifier::external_body]
pub(crate) fn sha256_digest(data: &[u8]) -> (r: Vec<u8>)
    ensures
        r@ == sha256(data@),
        r@.len() == 32,
{
    sha2::Sha256::digest(data).to_vec()
}

/// The text that is hashed for an instruction:
/// `<program>|ix|<instruction>`.
pub open spec fn instruction_seed_text(program_name: Seq<char>, ix_name: Seq<char>) -> Seq<char> {
    program_name + "|ix|"@ + ix_name
}

/// The text that is hashed for an account kind:
/// `<program>|account|<account>`.
pub open spec fn account_seed_text(program_name: Seq<char>, account_name: Seq<char>) -> Seq<char> {
    program_name + "|account|"@ + account_name
}

/// The tag that the hash strategy derives from a seed text: the first `size`
/// bytes of the SHA-256 digest of its UTF-8 bytes.
pub open spec fn hash_tag(seed: Seq<char>, size: usize) -> Seq<u8> {
    sha256(encode_utf8(seed)).subrange(0, size as int)
}

/// A seed as it is written into generated source: a text or a byte.
#[derive(Debug, PartialEq, Eq)]
pub enum TagSeed {
    Text(String),
    Id(u8),
}

/// What a [`TagSeed`] holds, as plain values.
pub ghost enum TagSeedView {
    Text(Seq<char>),
    Id(u8),
}

impl View for TagSeed {
    type V = TagSeedView;

    open spec fn view(&self) -> TagSeedView {
        match self {
            TagSeed::Text(s) => TagSeedView::Text(s@),
            TagSeed::Id(n) => TagSeedView::Id(*n),
        }
    }
}

/// A strategy to derive discriminators. A discriminator depends on the
/// program's name and on the instruction or account alone: never on the other
/// declarations or their order.
pub trait DiscriminatorGen {
    type Seed;

    /// The widths that the strategy can make.
    spec fn size_ok(size: usize) -> bool;

    /// The number of bytes of a tag that is asked for at the width `size`.
    spec fn tag_len(size: usize) -> usize;

    /// The number of bytes of a tag that is asked for at the width `size`.
    fn tag_width(size: usize) -> (r: usize)
        ensures
            r == Self::tag_len(size),
    ;

    /// The tag that a seed gives at a width.
    spec fn seed_tag(seed: Self::Seed, size: usize) -> Seq<u8>;

    /// The tag of an instruction.
    spec fn instruction_tag(program_name: Seq<char>, ix: InstructionView, size: usize) -> Seq<u8>;

    /// The tag of an account kind.
    spec fn account_tag(program_name: Seq<char>, account: AccountView, size: usize) -> Seq<u8>;

    /// The seed of an account kind, as generated source holds it.
    spec fn account_seed_token(program_name: Seq<char>, account: AccountView) -> TagSeedView;

    /// The seed of an account kind, as generated source holds it.
    fn account_token(program_name: &str, account: &Account) -> (r: TagSeed)
        ensures
            r@ == Self::account_seed_token(program_name@, account@),
    ;

    fn instruction_seed(program_name: &str, ix: &Instruction) -> (seed: Self::Seed)
        ensures
            forall|size: usize| #[trigger]
                Self::seed_tag(seed, size) == Self::instruction_tag(program_name@, ix@, size),
    ;

    fn account_seed(program_name: &str, account: &Account) -> (seed: Self::Seed)
        ensures
            forall|size: usize| #[trigger]
                Self::seed_tag(seed, size) == Self::account_tag(program_name@, account@, size),
    ;

    fn discriminator(seed: Self::Seed, size: usize) -> (r: Discriminator)
        requires
            Self::size_ok(size),
        ensures
            r@ == Self::seed_tag(seed, size),
            r@.len() == Self::tag_len(size),
    ;

    fn from_instruction(program_name: &str, ix: &Instruction, size: usize) -> (r: Discriminator)
        requires
            Self::size_ok(size),
        ensures
            r@ == Self::instruction_tag(program_name@, ix@, size),
            r@.len() == Self::tag_len(size),
    {
        let seed = Self::instruction_seed(program_name, ix);
        Self::discriminator(seed, size)
    }

    fn from_account(program_name: &str, account: &Account, size: usize) -> (r: Discriminator)
        requires
            Self::size_ok(size),
        ensures
            r@ == Self::account_tag(program_name@, account@, size),
            r@.len() == Self::tag_len(size),
    {
        let seed = Self::account_seed(program_name, account);
        Self::discriminator(seed, size)
    }
}

/// The hash strategy: the first bytes of the SHA-256 digest of a text made of
/// the program's name and the declaration's name.
pub struct HashDiscriminatorGen;

impl DiscriminatorGen for HashDiscriminatorGen {
    type Seed = String;

    open spec fn size_ok(size: usize) -> bool {
        size <= 32
    }

    open spec fn tag_len(size: usize) -> usize {
        size
    }

    fn tag_width(size: usize) -> (r: usize) {
        assert(size == Self::tag_len(size));
        size
    }

    open spec fn seed_tag(seed: String, size: usize) -> Seq<u8> {
        hash_tag(seed@, size)
    }

    open spec fn instruction_tag(program_name: Seq<char>, ix: InstructionView, size: usize) -> Seq<
        u8,
    > {
        hash_tag(instruction_seed_text(program_name, ix.name), size)
    }

    open spec fn account_tag(program_name: Seq<char>, account: AccountView, size: usize) -> Seq<
        u8,
    > {
        hash_tag(account_seed_text(program_name, account.name), size)
    }

    open spec fn account_seed_token(program_name: Seq<char>, account: AccountView) -> TagSeedView {
        TagSeedView::Text(account_seed_text(program_name, account.name))
    }

    fn account_token(program_name: &str, account: &Account) -> (r: TagSeed) {
        let seed = String::from_str(program_name).concat("|account|").concat(
            account.name.as_str(),
        );
        let r = TagSeed::Text(seed);
        assert(r@ == Self::account_seed_token(program_name@, account@));
        r
    }

    /// The seed of an instruction: `<program>|ix|<instruction>`.
    fn instruction_seed(program_name: &str, ix: &Instruction) -> (seed: String)
        ensures
            seed@ == instruction_seed_text(program_name@, ix@.name),
    {
        let seed = String::from_str(program_name).concat("|ix|").concat(ix.name.as_str());
        assert(seed@ == instruction_seed_text(program_name@, ix@.name));
        assert forall|size: usize| #[trigger]
            Self::seed_tag(seed, size) == Self::instruction_tag(program_name@, ix@, size) by {}
        seed
    }

    /// The seed of an account kind: `<program>|account|<account>`.
    fn account_seed(program_name: &str, account: &Account) -> (seed: String)
        ensures
            seed@ == account_seed_text(program_name@, account@.name),
    {
        let seed = String::from_str(program_name).concat("|account|").concat(
            account.name.as_str(),
        );
        assert(seed@ == account_seed_text(program_name@, account@.name));
        assert forall|size: usize| #[trigger]
            Self::seed_tag(seed, size) == Self::account_tag(program_name@, account@, size) by {}
        seed
    }

    /// The tag of a seed: the first `size` of the 32 bytes of its digest.
    fn discriminator(seed: String, size: usize) -> (r: Discriminator)
        ensures
            sha256(encode_utf8(seed@)).len() == 32,
            r@ == sha256(encode_utf8(seed@)).subrange(0, size as int),
    {
        let text = seed.as_str();
        let data = text.as_bytes();
        assert(data@ == encode_utf8(seed@));
        let hash = sha256_digest(data);
        let mut bytes: Vec<u8> = Vec::new();
        let mut i: usize = 0;
        while i < size
            invariant
                i <= size <= 32,
                hash@.len() == 32,
                hash@ == sha256(encode_utf8(seed@)),
                bytes@ == hash@.subrange(0, i as int),
            decreases size - i,
        {
            bytes.push(hash[i]);
            assert(hash@.subrange(0, i as int).push(hash@[i as int]) =~= hash@.subrange(
                0,
                i + 1,
            ));
            i = i + 1;
        }
        assert(bytes@ == Self::seed_tag(seed, size));
        assert(bytes@.len() == Self::tag_len(size));
        bytes
    }
}

/// The index strategy: the declared id, as one byte.
pub struct IndexDiscriminatorGen;

impl DiscriminatorGen for IndexDiscriminatorGen {
    type Seed = u8;

    open spec fn size_ok(size: usize) -> bool {
        true
    }

    open spec fn tag_len(size: usize) -> usize {
        1
    }

    fn tag_width(_size: usize) -> (r: usize) {
        assert(1usize == Self::tag_len(_size));
        1
    }

    open spec fn seed_tag(seed: u8, size: usize) -> Seq<u8> {
        seq![seed]
    }

    open spec fn instruction_tag(program_name: Seq<char>, ix: InstructionView, size: usize) -> Seq<
        u8,
    > {
        seq![ix.id]
    }

    open spec fn account_tag(program_name: Seq<char>, account: AccountView, size: usize) -> Seq<
        u8,
    > {
        seq![account.id]
    }

    open spec fn account_seed_token(program_name: Seq<char>, account: AccountView) -> TagSeedView {
        TagSeedView::Id(account.id)
    }

    fn account_token(_program_name: &str, account: &Account) -> (r: TagSeed) {
        let r = TagSeed::Id(account.id);
        assert(r@ == Self::account_seed_token(_program_name@, account@));
        r
    }

    /// The seed of an instruction: its id.
    fn instruction_seed(_program_name: &str, ix: &Instruction) -> (seed: u8)
        ensures
            seed == ix@.id,
    {
        assert forall|size: usize| #[trigger]
            Self::seed_tag(ix.id, size) == Self::instruction_tag(_program_name@, ix@, size) by {}
        ix.id
    }

    /// The seed of an account kind: its id.
    fn account_seed(_program_name: &str, account: &Account) -> (seed: u8)
        ensures
            seed == account@.id,
    {
        assert forall|size: usize| #[trigger]
            Self::seed_tag(account.id, size) == Self::account_tag(
                _program_name@,
                account@,
                size,
            ) by {}
        account.id
    }

    fn discriminator(seed: u8, _size: usize) -> (r: Discriminator) {
        let mut v: Vec<u8> = Vec::new();
        v.push(seed);
        assert(v@ =~= Self::seed_tag(seed, _size));
        assert(v@.len() == Self::tag_len(_size));
        v
    }
}

/// The index strategy gives instructions of different ids different tags.
pub proof fn lemma_index_tags_distinct(
    program_name: Seq<char>,
    a: InstructionView,
    b: InstructionView,
    size: usize,
)
    requires
        a.id != b.id,
    ensures
        IndexDiscriminatorGen::instruction_tag(program_name, a, size)
            != IndexDiscriminatorGen::instruction_tag(program_name, b, size),
{
    assert(IndexDiscriminatorGen::instruction_tag(program_name, a, size)[0] == a.id);
    assert(IndexDiscriminatorGen::instruction_tag(program_name, b, size)[0] == b.id);
}

/// A hash tag of a smaller width is the start of the tag of a larger width:
/// to change the width cuts or extends a tag, and changes none of the bytes
/// that both have.
pub proof fn lemma_hash_tag_prefix(seed: Seq<char>, small: usize, large: usize)
    requires
        small <= large <= sha256(encode_utf8(seed)).len(),
    ensures
        hash_tag(seed, small) == hash_tag(seed, large).subrange(0, small as int),
{
    assert(hash_tag(seed, small) =~= hash_tag(seed, large).subrange(0, small as int));
}

} // verus!
