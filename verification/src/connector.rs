//! The connector: where the server is, and how its calls are packed.

use crate::dataset::texts;
use crate::messages::{
    Call, CallView, DarksideBlock, DarksideBlocksUrl, DarksideEmptyBlocks, DarksideHeight,
    DarksideMetaState, RawTransaction, RawTransactionView, TreeState,
};
use http::uri::{Authority, PathAndQuery, Scheme};
use http::Uri;
use vstd::prelude::*;

verus! {

/// The address of a resource.
#[verifier::external_type_specification]
#[verifier::external_body]
pub struct ExUri(Uri);

/// The scheme of an address.
#[verifier::external_type_specification]
#[verifier::external_body]
pub struct ExScheme(Scheme);

/// The host of an address, with its port.
#[verifier::external_type_specification]
#[verifier::external_body]
pub struct ExAuthority(Authority);

/// The path of an address, with its query.
#[verifier::external_type_specification]
#[verifier::external_body]
pub struct ExPathAndQuery(PathAndQuery);

/// The error of putting an address together.
#[verifier::external_type_specification]
#[verifier::external_body]
pub struct ExHttpError(http::Error);

/// The parts of an address, each where it is there.
#[verifier::ext_equal]
pub struct UriParts {
    pub scheme: Option<Seq<char>>,
    pub authority: Option<Seq<char>>,
    pub path_and_query: Option<Seq<char>>,
}

/// The parts that an address has, as `Uri::scheme`, `Uri::authority` and
/// `Uri::path_and_query` give them.
pub uninterp spec fn uri_parts(uri: Uri) -> UriParts;

/// The text of a scheme.
pub uninterp spec fn scheme_text(scheme: Scheme) -> Seq<char>;

/// The text of an authority.
pub uninterp spec fn authority_text(authority: Authority) -> Seq<char>;

/// The text of a path with its query.
pub uninterp spec fn path_text(path: PathAndQuery) -> Seq<char>;

/// Calls `Uri::scheme`: the scheme, where the address has one.
#[verifier::external_body]
fn uri_scheme(uri: &Uri) -> (r: Option<Scheme>)
    ensures
        match r {
            Some(scheme) => uri_parts(*uri).scheme == Some(scheme_text(scheme)),
            None => uri_parts(*uri).scheme is None,
        },
{
    uri.scheme().cloned()
}

/// Calls `Uri::authority`: the host with its port, where the address has one.
#[verifier::external_body]
fn uri_authority(uri: &Uri) -> (r: Option<Authority>)
    ensures
        match r {
            Some(authority) => uri_parts(*uri).authority == Some(authority_text(authority)),
            None => uri_parts(*uri).authority is None,
        },
{
    uri.authority().cloned()
}

/// Calls `Uri::path_and_query`: the path with its query, where the address has one.
#[verifier::external_body]
fn uri_path_and_query(uri: &Uri) -> (r: Option<PathAndQuery>)
    ensures
        match r {
            Some(path) => uri_parts(*uri).path_and_query == Some(path_text(path)),
            None => uri_parts(*uri).path_and_query is None,
        },
{
    uri.path_and_query().cloned()
}

/// Builds an address with `Uri::builder`. With all three parts given this succeeds, and the
/// address has those parts.
#[verifier::external_body]
fn build_uri(scheme: Scheme, authority: Authority, path: PathAndQuery) -> (r: Result<
    Uri,
    http::Error,
>)
    ensures
        r is Ok,
        uri_parts(r->Ok_0).scheme == Some(scheme_text(scheme)),
        uri_parts(r->Ok_0).authority == Some(authority_text(authority)),
        uri_parts(r->Ok_0).path_and_query == Some(path_text(path)),
{
    Uri::builder().scheme(scheme).authority(authority).path_and_query(path).build()
}

/// `Uri::clone`: the copy has the same parts.
pub assume_specification[ <Uri as Clone>::clone ](uri: &Uri) -> (r: Uri)
    ensures
        uri_parts(r) == uri_parts(*uri),
;

/// A darksidewalletd server, given by its address.
#[derive(Debug)]
pub struct DarksideConnector(pub Uri);

impl Clone for DarksideConnector {
    fn clone(&self) -> (r: Self)
        ensures
            uri_parts(r.0) == uri_parts(self.0),
    {
        DarksideConnector(self.0.clone())
    }
}

/// The address to which a request for `request` goes on the server at `server`.
pub open spec fn redirected(server: UriParts, request: UriParts) -> UriParts {
    UriParts {
        scheme: server.scheme,
        authority: server.authority,
        path_and_query: request.path_and_query,
    }
}

/// Whether requests can be sent to the server at `server`, and `request` says which.
pub open spec fn can_redirect(server: UriParts, request: UriParts) -> bool {
    &&& server.scheme is Some
    &&& server.authority is Some
    &&& request.path_and_query is Some
}

/// The raw transactions for serialized transactions and the heights of their blocks.
pub open spec fn raw_transactions(transactions: Seq<(Vec<u8>, u64)>) -> Seq<RawTransactionView> {
    transactions.map_values(
        |t: (Vec<u8>, u64)| RawTransactionView { data: t.0@, height: t.1 },
    )
}

/// A request that already goes to a server goes to the same place when it is sent there
/// again, and one that went elsewhere leaves no trace of that.
pub proof fn law_redirected_again(server: UriParts, other: UriParts, request: UriParts)
    ensures
        redirected(server, redirected(server, request)) == redirected(server, request),
        redirected(server, redirected(other, request)) == redirected(server, request),
{
}

impl DarksideConnector {
    /// The address of a request on this server: the server's scheme and authority, and the
    /// path and query of the request, which name the method that is called. `None` where one
    /// of them is missing.
    pub fn request_uri(&self, request: &Uri) -> (r: Option<Uri>)
        ensures
            r is Some <==> can_redirect(uri_parts(self.0), uri_parts(*request)),
            r matches Some(uri) ==> uri_parts(uri) == redirected(
                uri_parts(self.0),
                uri_parts(*request),
            ),
    {
        let scheme = uri_scheme(&self.0)?;
        let authority = uri_authority(&self.0)?;
        let path = uri_path_and_query(request)?;
        match build_uri(scheme, authority, path) {
            Ok(uri) => Some(uri),
            Err(_) => None,
        }
    }

    /// The call that makes the staged blocks, up to `height`, the chain.
    pub fn apply_staged(&self, height: i32) -> (r: Call)
        ensures
            r@ == (CallView::ApplyStaged { height }),
    {
        Call::ApplyStaged(DarksideHeight { height })
    }

    /// The call that gives the server the tree state of a block.
    pub fn add_tree_state(&self, tree_state: TreeState) -> (r: Call)
        ensures
            r@ == (CallView::AddTreeState { state: tree_state@ }),
    {
        Call::AddTreeState(tree_state)
    }

    /// The call that drops every block and starts anew.
    pub fn reset(&self, sapling_activation: i32, branch_id: String, chain_name: String) -> (r: Call)
        ensures
            r@ == (CallView::Reset {
                sapling_activation,
                branch_id: branch_id@,
                chain_name: chain_name@,
            }),
    {
        Call::Reset(DarksideMetaState { sapling_activation, branch_id, chain_name })
    }

    /// The call that stages the blocks found at `url`.
    pub fn stage_blocks(&self, url: String) -> (r: Call)
        ensures
            r@ == (CallView::StageBlocks { url: url@ }),
    {
        Call::StageBlocks(DarksideBlocksUrl { url })
    }

    /// The call that stages `count` empty blocks, the first at `height`.
    pub fn stage_blocks_create(&self, height: i32, count: i32, nonce: i32) -> (r: Call)
        ensures
            r@ == (CallView::StageBlocksCreate { height, count, nonce }),
    {
        Call::StageBlocksCreate(DarksideEmptyBlocks { height, count, nonce })
    }

    /// The call that stages the given blocks, in order.
    pub fn stage_blocks_stream(&self, blocks: Vec<String>) -> (r: Call)
        ensures
            r@ == (CallView::StageBlocksStream { blocks: texts(blocks@) }),
    {
        let mut messages: Vec<DarksideBlock> = Vec::new();
        for block in it: blocks
            invariant
                it.seq() == blocks@,
                messages@.len() == it.index(),
                forall|i: int| 0 <= i < it.index() ==> (#[trigger] messages@[i]).block == blocks@[i],
        {
            messages.push(DarksideBlock { block });
        }
        assert(messages@.map_values(|b: DarksideBlock| b.block@) =~= texts(blocks@));
        Call::StageBlocksStream(messages)
    }

    /// The call that stages the given transactions, in order, each for the block at its
    /// height.
    pub fn stage_transactions_stream(&self, transactions: Vec<(Vec<u8>, u64)>) -> (r: Call)
        ensures
            r@ == (CallView::StageTransactionsStream {
                transactions: raw_transactions(transactions@),
            }),
    {
        let mut messages: Vec<RawTransaction> = Vec::new();
        for transaction in it: transactions
            invariant
                it.seq() == transactions@,
                messages@.len() == it.index(),
                forall|i: int|
                    0 <= i < it.index() ==> (#[trigger] messages@[i]).data == transactions@[i].0
                        && messages@[i].height == transactions@[i].1,
        {
            messages.push(RawTransaction { data: transaction.0, height: transaction.1 });
        }
        assert(messages@.map_values(|t: RawTransaction| t@) =~= raw_transactions(transactions@));
        Call::StageTransactionsStream(messages)
    }

    /// The call that asks for the transactions that wallets have sent.
    pub fn get_incoming_transactions(&self) -> (r: Call)
        ensures
            r@ == CallView::GetIncomingTransactions,
    {
        Call::GetIncomingTransactions
    }

    /// The call that forgets the transactions that wallets have sent.
    pub fn clear_incoming_transactions(&self) -> (r: Call)
        ensures
            r@ == CallView::ClearIncomingTransactions,
    {
        Call::ClearIncomingTransactions
    }

    /// The call that forgets the unspent outputs of every address.
    pub fn clear_address_utxo(&self) -> (r: Call)
        ensures
            r@ == CallView::ClearAddressUtxo,
    {
        Call::ClearAddressUtxo
    }
}

} // verus!
