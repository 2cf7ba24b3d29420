use darkside::messages::{RawTransaction, TreeState};
use darkside::transaction::{
    create_transaction_from_raw_transaction, hex_line, write_raw_transaction, write_transaction,
    RecordError, NU5_BRANCH,
};
use darkside::update::{new_tree_state, updated_tree_state, TreeUpdateError};
use incrementalmerkletree::{Hashable, Level};
use incrementalmerkletree::frontier::CommitmentTree;
use zcash_primitives::merkle_tree::read_commitment_tree;
use zcash_protocol::consensus::BranchId;

/// A transaction with one Sapling output.
const ONE_OUTPUT: &str = "\
    050000800a27a726b4d0d6c21fc998c31f4dd2080100000000000000000000000000000000000000\
    00000000000000000000000000ffffffff06041f4dd20800ffffffff015058e5754c2104000753ac\
    51530051520001e5849f96bae6f2056f33ab1e6989d7d264adc97855a990103b4d1e6350d5c31a39\
    c3caf69459e462f141be8b39037ffa255ce27e4ad7b566a29620a9f011ab08fb2ad3050652b3f65b\
    8e34526a2a15fc2ddc5b5113e4882c7cca0dd5577be067ba7a175dae4bbe3ef4863d53708915090f\
    47a068e227433f9e49d3aa09e356d8d66d0c0121e91a3c4aa3f27fa1b63396e2b41db908fdab8b18\
    cc7304e94e970568f9421c0dbbbaf84598d972b0534f48a5e52670436aaa776ed2482ad703430201\
    e53443c36dcfd34a0cb6637876105e79bf3bd58ec148cb64970e3223a91f71dfcfd5a04b667fbaf3\
    d4b3b908b9828820dfecdd753750b5f9d2216e56c615272f854464c0ca4b1e85aedd038292c4e1a5\
    7744ebba010b9ebfbb011bd6f0b78805025d27f3c17746bae116c15d9f471f0f6288a150647b2afe\
    9df7cccf01f5cde5f04680bbfed87f6cf429fb27ad6babe791766611cf5bc20e48bef119259b9b8a\
    0e39c3df28cb9582ea338601cdc481b32fb82adeebb3dade25d1a3df20c37e712506b5d996c49a9f\
    0f30ddcb91fe9004e1e83294a6c9203d94e8dc2cbb449de4155032604e47997016b304fd437d8235\
    045e255a19b743a0a9f2e336b44cae307bb3987bd3e4e777fbb34c0ab8cc3d67466c0a88dd4ccad1\
    8a07a8d1068df5b629e5718d0f6df5c957cf71bb00a5178f175caca944e635c5159f738e2402a2d2\
    1aa081e10e456afb00b9f62416c8b9c0f7228f510729e0be3f305313d77f7379dc2af24869c6c74e\
    e4471498861d192f0ff0f508285dab6b6a36ccf7d12256cc76b95503720ac672d08268d2cf7773b6\
    ba2a5f664847bf707f2fc10c98f2f006ec22ccb5a8c8b7c40c7c2d49a6639b9f2ce33c25c04bc461\
    e744dfa536b00d94baddf4f4d14044c695a33881477df124f0fcf206a9fb2e65e304cdbf0c4d2390\
    170c130ab849c2f22b5cdd3921640c8cf1976ae1010b0dfd9cb2543e45f99749cc4d61f2e8aabfe9\
    8bd905fa39951b33ea769c45ab9531c57209862ad12fd76ba4807e65417b6cd12fa8ec916f013ebb\
    8706a9a556c762f88500006effeda06c4be24b04846392e9d1e6930eae01fa21fbd700583fb598b9\
    2c8f4eb8a61aa6235db60f2841cf3a1c6ab54c67066844711d091eb931a1bd6281aedf2a0e8fab18\
    817202a9be06402ed9cc720c16bfe881e4df4255e87afb7fc62f38116bbe03cd8a3cb11a27d56841\
    4782f47b1a44c97c680467694bc9709d32916c97e8006cbb07ba0e4180a3738038c374c4cce8f329\
    59afb25f303f5815c4533124acf9d18940e77522ac5dc4b9570aae8f47b7f57fd8767bea1a24ae7b\
    ed65b409e1dd26b8dddd68858d6f5161f073d90636860a9aaee18629b06330a8ee30591debfcef56\
    a026bb28c3b06ec2cfaf5b79ab72694d1d012a7594dd80ae7dfa0c00\
";

/// A transaction with one Sapling output and two Orchard actions.
const OUTPUT_AND_ACTIONS: &str = "\
    050000800a27a726b4d0d6c27a8f739a2d6f2c0201e152a8049e294c4d6e66b164939daffa2ef6ee\
    6921481cdd86b3cc4318d9614fc820905d0453516aaca3f2498800019f33bf3a109bdd1b232b47b1\
    646d91e1296634ebde5ccad57288b5b2228186e54b6968912a6381ce3dc166d56a1d62f5a8d7551d\
    b5fd9313e8c7203d996af7d41a38e01d94903d3c3e0ad3360c1d3710acd20b183e31d49f25c9a138\
    f49b1a5301466b3da612149df5eda0f14f2efc5c6ac03884428a315dc91f8d7b492ebc57e475a4a6\
    f26572504b192232ecb9f0c02411e52596bc5e90457e745939ffedbd121e37ec1e9dddc31b06dc95\
    76a1738ef73e6ba71648913dbf75a779fdd488d83f857deecc40a98d5f2935395ee4762dd21afdbb\
    5d47fa9a6dd984d567db2857b927b7fae2db587105415d4642789d38f50b8dbcc129cab3d17d19f3\
    355bcf73cecb8cb8a5da01307152f13936a270572670dc82d39026c6cb4cd4b0f7f5aa2a4f5a5341\
    ec5dd715406f2fdd2afa733f5f641c8c21862a1bafce2609d9eecfa158cfb5cd79f88008e315dc7d\
    8388e76c1782fd2795d18a763624c25fa959cc97489ce75745824b77868c53239cfbdf73caec6560\
    4037314faaceb56218c6bd30f8374ac13386793f21a9fb80ad03bc0cda4a44946c00e1b1a1df0e5b\
    87b5bece477a709649e950060591394812951e1fe3895b8cc3d14d2cf6556df6ed4b4ddd3d9a69f5\
    3357d7767f4f5ccbdbc596631277f8fecd08cb056b95e3025b9792fff7f244fc716269b926d62e95\
    96fa825c6bf21aff9e68625a192440ea06828123d97884806f15fa08da52754a1095e3ff1abd5ce4\
    fddfccfc3a6128aef784a64610a89d1a7099216d0814d3a2d452431c32d411ac1cce82ad0229407b\
    bc48985675e3f874a4533f1d63a84dfa3e0f460fe2f57e34fbc75423c3737f5b2a0615f5722db041\
    a3ef66fa483afd3c2e19e59444a64add6df1d963f5dd5b5010d3d025f0287c4cf19c75f33d51dddd\
    ba5d657b43ee8da645443814cc7329f3e9b4e54c236c29af3923101756d9fa4bd0f7d2ddaacb6b0f\
    86a2658e0a07a05ac5b950051cd24c47a88d13d659ba2a46ca1830816d09cd7646f76f716abec5de\
    07fe9b523410806ea6f288f8736c23357c85f45791e1708029d9824d90704607f387a03e49bf9836\
    574431345a7877efaa8a08e73081ef8d62cb780ab6883a50a0d470190dfba10a857f82842d3825b3\
    d6da0573d316eb160dc0b716c48fbd467f75b780149ae8808f4e68f50c0536acddf6f1aeab016b6b\
    c1a51ed44cfab70000c7b3534201cfb1cd8dbf69b8250c18ef41294ca97993db546c1fe01f7e9c8e\
    367edcf04be34a9851a7af9db6990ed83dd64af3597c04323ea51b0052ad8084a8b9da948d320dad\
    d64f5431e61ddf658d24ae67c22c8d1309131fc00fe7f235734276d38d47f1e191e00c7a1d48af04\
    6827591e9733a97fa6b679f3dc601d008285edcbdae69ce8fc1be4aac00ff2711ebd931de5188568\
    78f73476f21a482ec9378365c8f7393c94e2885315eb4671098b79535e790fe53e29fef2b3766697\
    ac32b4f473f468a008e72389fc03880d780cb07fcfaabe3f1a84b27db59a4a153d1070689f2ccf97\
    5b2b176e1c69dbe381340ef1f98fdc4b453abda3a2bfac3069ba7f1cc50a81c2520e412fab4e5d39\
    7ecf739f280d5b684533d5d29cfe7e7302ec144b4e553acfd670f77e755fc88e0677e31ba459b44e\
    307768958fe3789d41c2b1ff434cb30e15914f01bc6bc2307b488d2556d7b7380ea4ffd712f6b02f\
    e806b94569cd4059f396bf29b99d0a40e5e1711ca944f72d436a102fca4b97693da0b086fe9d2e71\
    62470d02e0f05d4bec9512bfb3f38327296efaa74328b118c27402c70c3a90b49ad4bbc68e37c0aa\
    7d9b3fe17799d73b841e751713a02943905aae0803fd69442eb7681ec2a05600054e92eed555028f\
    21b6a155268a2dd664052528a5f8ed028f59af985ad1315c2e25aeb9d7f134e4bf478642ab96b15d\
    3b3e13ce2387ac84dc0819e81260e11d392a5f06db8b5633de281a0e9c958c24060297f608af1dc5\
    1616562b1ffff6e2a28bab1f7772713a0a4b56fe47fb5a7b73aeee5345566ecf3e95e825f92eb469\
    eb5d69164206a0ea1ce73bfb2a942e73703214d270d80534389b1a1e2bba67481eb3667d6d38254a\
    c4b44559b4708cdd12898972a895bf0fb055cf1fb9b73029d6bfb27da2b5294f5cb354a894322848\
    cc3d35b9554a5f62b44a7dcb25406e5ba07882cb6473714e77a051a7dcd29fea0a943785b325cdab\
    95404fc7aed70525cddb41872cfcc214b13232edc78609753dbff930eb0dc156612b9cb434bc4b69\
    3392deb87c530435312edcedc6a961133338d786c4a3e103f60110a16b1337129704bf4754ff6ba9\
    fbe65951e610620f71cda8fc877625f2c5bb04cbe1228b1e886f4050afd8fe94e97d2e9e85c6bb74\
    8c0042d3249abb1342bb0eebf62058bf3de080d94611a3750915b5dc6c0b3899d41222bace760ee9\
    c8818ded599e34c56d7372af1eb86852f2a732104bdb750739de6c2c6e0f9eb7cb17f1942bfc9f4f\
    d6ebb6b4cdd4da2bca26fac4578e9f543405acc7d86ff59158bd0cba3aef6f4a8472d144d99f8b8d\
    1dedaa9077d4f01d4bb27bbe31d88fbefac3dcd4797563a26b1d61fcd9a464ab21ed550fe6fa0969\
    5ba0b2f10eea6468cc6e20a66f826e3d14c5006f0563887f5e1289be1b2004caca8d3f34d6e84bf5\
    9c1e04619a7c23a996941d889e4622a9b9b1d59d5e319094318cd405ba27b7e2c084762d31453ec4\
    549a4d97729d033460fcf89d6494f2ffd789e98082ea5ce9534b3acd60fe49e37e4f666931677319\
    ed89f85588741b3128901a93bd78e4be0225a9e2692c77c969ed0176bdf9555948cbd5a332d045de\
    6ba6bf4490adfe7444cd467a09075417fcc0062e49f008c51ad4227439c1b4476ccd8e97862dab7b\
    e1e8d399c05ef27c6e22ee273e15786e394c8f1be31682a30147963ac8da8d41d804258426a3f702\
    89b8ad19d8de13be4eebe3bd4c8a6f55d6e0c373d456851879f5fbc282db9e134806bff71e11bc33\
    ab75dd6ca067fb73a043b646a7cf39cab4928386786d2f24141ee120fdc34d6764eafc66880ee020\
    4f53cc1167ed20b43a52dea3ca7cff8ef35cd8e6d7c111a68ef44bcd0c1513ad47ca61c659cc5d32\
    5b440f6b9f59aff66879bb6688fdb462af43582b983f92b5698b87db46e4b02dd8e81eca555a44f2\
    f1aef11d88a0bcee76af9ad3f9c46a67062e1a9ca7ea5c014384af07219c7c0ee7fc7bfc7933d174\
    650f46b4cc000190c19b44c57ae891aa86646c10a177a8626be064409931c37d9e8bdc433b7d79e0\
    8a12f738a8f0dbddfef2f2657ef3e47d1b0fd11e6a13654db2854fcbff49aa0dadafec320b6ed2d4\
    b279aee9060c1b221e2eb2f13b0691c4d842406d0ec4282c9526174a09878fe8fdde33a29604e5e5\
    e7b2a025d6650b97dbb52befb59b1d30a57433b0a351474444099daa371046613260cf3354cfcdad\
    a663ece824ffd7e44393886a86165ddddf2b4c41773554c86995269408b11e6737a4c447586f6917\
    3446d8e48bf84cbc000a807899973eb93c5e819aad669413f8387933ad1584aa35e43f4ecd1e2d04\
    07c0b1b89920ffdfdb9bea51ac95b557af71b89f903f5d9848f14fcbeb1837570f544d6359eb23fa\
    f38a0822da36ce426c4a2fbeffeb0a8a2e297a9d19ba15024590e3329d9fa9261f9938a4032dd346\
    06c9cf9f3dd33e576f05cd1dd6811c6298757d77d9e810abdb226afcaa4346a6560f8932b3181fd3\
    55d5d391976183f8d99388839632d6354f666d09d3e5629ea19737388613d38a34fd0f6e50ee5a0c\
    c9677177f50028c141378187bd2819403fc534f80076e9380cb4964d3b6b45819d3b8e9caf54f051\
    852d671bf8c1ffde2d1510756418cb4810936aa57e6965d6fb656a760b7f19adf96c173488552193\
    b147ee58858033dac7cd0eb204c06490bbdedf5f7571acb2ebe76acef3f2a01ee987486dfe6c3f0a\
    5e234c127258f97a28fb5d164a8176be946b8097d0e317287f33bf9c16f9a545409ce29b1f427372\
    5fc0df02a04ebae178b3414fb0a82d50deb09fcf4e6ee9d180ff4f56ff3bc1d3601fc2dc90d814c3\
    256f4967d3a8d64c83fea339c51f5a8e5801fbb97835581b602465dee04b5922c2761b54245bec0c\
    9eef2db97d22b2b3556cc969fbb13d06509765a52b3fac54b93f421bf08e18d52ddd52cc1c8ca8ad\
    faccab7e5cc2f4573fbbf8239bb0b8aedbf8dad16282da5c9125dba1c059d0df8abf621078f02d6c\
    4bc86d40845ac1d59710c45f07d585eb48b32fc0167ba256e73ca3b9311c62d1094903570519d444\
    2f0200e6ad11f2452dc9ae85aec01fc56f8cbfda75a7727b75ebbd6bbffb43b63a3b1b871e40feb0\
    db002974a3c3b1a788567231bf6399ff89236981149d423802d2341a3bedb9ddcbac1fe7b6435e14\
    79c72e7089d029e7fbbaf3cf37e9b9a6b776791e4c5e6fda57e8d5f14c8c35a2d270846b9dbe005c\
    da16af4408f3ab06a916eeeb9c9594b70424a4c1d171295b6763b22f47f80b53ccbb904bd68fd65f\
    bd3fbdea1035e98c21a7dba5fe1089f7d1c032f24d36835aa8815266e897ff829403cfac3a715954\
    b9b68958a0111a2c9265633ba2831a2e86b941e569d58d99c1383597fad81193c4c13151f40aedb4\
    87b5c04ae3b1ddfbafa26e720099f26d5a7535aee57306fd2c4f30673cd9b698fecf32faf88f62e2\
    1c90665859dd26833d21d9bc5452bd19515d3fa5c1e68bc209b9dc2a10ae6b630726a67b33603c69\
    1fafc281dd94dc9888a68c4f45155aa7897c045aafd9335be2e0ddcf5f586d7f6b4fe12dad9a17f5\
    db7031\
";

/// A transaction with neither.
const NO_SHIELDED_PART: &str = "\
    050000800a27a726b4d0d6c2c2eb518f68984d020100000000000000000000000000000000000000\
    00000000000000000000000000ffffffff060468984d0200ffffffff00000000\
";

const FIRST_CMU: &str = "39c3caf69459e462f141be8b39037ffa255ce27e4ad7b566a29620a9f011ab08";
const SECOND_CMU: &str = "75a4a6f26572504b192232ecb9f0c02411e52596bc5e90457e745939ffedbd12";
const FIRST_CMX: &str = "8972a895bf0fb055cf1fb9b73029d6bfb27da2b5294f5cb354a894322848cc3d";
const SECOND_CMX: &str = "c37d9e8bdc433b7d79e08a12f738a8f0dbddfef2f2657ef3e47d1b0fd11e6a13";
const ZERO: &str = "0000000000000000000000000000000000000000000000000000000000000000";
const EMPTY_TREE: &str = "000000";

fn bytes(text: &str) -> Vec<u8> {
    hex::decode(text).unwrap()
}

fn state(sapling_tree: &str, orchard_tree: &str) -> TreeState {
    TreeState {
        network: "main".to_string(),
        height: 5,
        hash: "abcd".to_string(),
        time: 6,
        sapling_tree: sapling_tree.to_string(),
        orchard_tree: orchard_tree.to_string(),
    }
}

fn update(before: &TreeState, transaction: &str) -> Result<TreeState, TreeUpdateError> {
    updated_tree_state(before, &bytes(transaction), 9, "regtest")
}

fn new_state(sapling_tree: &str, orchard_tree: &str) -> TreeState {
    TreeState {
        network: "regtest".to_string(),
        height: 9,
        hash: String::new(),
        time: 0,
        sapling_tree: sapling_tree.to_string(),
        orchard_tree: orchard_tree.to_string(),
    }
}

/// A tree with every leaf taken.
fn full_tree() -> String {
    let mut text = format!("01{ZERO}01{ZERO}1f");
    for _ in 0..31 {
        text.push_str(&format!("01{ZERO}"));
    }
    text
}

fn raw(text: &str) -> RawTransaction {
    RawTransaction { data: bytes(text), height: 1 }
}

#[test]
fn update_appends_an_output() {
    assert_eq!(
        update(&state(EMPTY_TREE, EMPTY_TREE), ONE_OUTPUT),
        Ok(new_state(&format!("01{FIRST_CMU}0000"), EMPTY_TREE))
    );
}

#[test]
fn update_appends_outputs_and_actions_in_order() {
    assert_eq!(
        update(&state(EMPTY_TREE, EMPTY_TREE), OUTPUT_AND_ACTIONS),
        Ok(new_state(
            &format!("01{SECOND_CMU}0000"),
            &format!("01{FIRST_CMX}01{SECOND_CMX}00")
        ))
    );
}

#[test]
fn update_follows_an_update() {
    let first = update(&state(EMPTY_TREE, EMPTY_TREE), ONE_OUTPUT).unwrap();
    let second = update(&first, OUTPUT_AND_ACTIONS).unwrap();
    assert_eq!(
        second,
        new_state(
            &format!("01{FIRST_CMU}01{SECOND_CMU}00"),
            &format!("01{FIRST_CMX}01{SECOND_CMX}00")
        )
    );
    let third = update(&second, ONE_OUTPUT).unwrap();
    let node = |text: &str| {
        let encoding: [u8; 32] = bytes(text).try_into().unwrap();
        sapling_crypto::Node::from_bytes(encoding).unwrap()
    };
    let parent =
        sapling_crypto::Node::combine(Level::from(0), &node(FIRST_CMU), &node(SECOND_CMU));
    assert_eq!(
        third.sapling_tree,
        format!("01{FIRST_CMU}000101{}", hex::encode(parent.to_bytes()))
    );
    assert_eq!(third.orchard_tree, second.orchard_tree);
}

#[test]
fn update_adds_as_many_leaves_as_there_are_commitments() {
    let sapling_size = |state: &TreeState| {
        let tree: CommitmentTree<sapling_crypto::Node, 32> =
            read_commitment_tree(&bytes(&state.sapling_tree)[..]).unwrap();
        tree.size()
    };
    let orchard_size = |state: &TreeState| {
        let tree: CommitmentTree<orchard::tree::MerkleHashOrchard, 32> =
            read_commitment_tree(&bytes(&state.orchard_tree)[..]).unwrap();
        tree.size()
    };
    let mut state = state(EMPTY_TREE, EMPTY_TREE);
    for n in 1..10 {
        state = update(&state, OUTPUT_AND_ACTIONS).unwrap();
        assert_eq!(sapling_size(&state), n);
        assert_eq!(orchard_size(&state), 2 * n);
    }
}

#[test]
fn update_without_shielded_parts_keeps_the_trees() {
    let sapling = format!("01{FIRST_CMU}0000");
    let before = state(&sapling.to_uppercase(), &format!("{EMPTY_TREE}ffff"));
    assert_eq!(update(&before, NO_SHIELDED_PART), Ok(new_state(&sapling, EMPTY_TREE)));
}

#[test]
fn update_names_the_first_thing_wrong() {
    let cases = [
        (state("0", "0"), TreeUpdateError::SaplingText),
        (state("0g0000", EMPTY_TREE), TreeUpdateError::SaplingText),
        (state("", "zz"), TreeUpdateError::SaplingTree),
        (state("020000", EMPTY_TREE), TreeUpdateError::SaplingTree),
        (state(EMPTY_TREE, "+0"), TreeUpdateError::OrchardText),
        (state(EMPTY_TREE, "0000"), TreeUpdateError::OrchardTree),
    ];
    for (before, error) in cases {
        assert_eq!(update(&before, "00"), Err(error));
    }
    let before = state(EMPTY_TREE, EMPTY_TREE);
    assert_eq!(update(&before, "00"), Err(TreeUpdateError::Transaction));
    assert_eq!(update(&before, ""), Err(TreeUpdateError::Transaction));
}

#[test]
fn update_needs_room_in_the_trees() {
    let full = full_tree();
    assert_eq!(
        update(&state(&full, &full), OUTPUT_AND_ACTIONS),
        Err(TreeUpdateError::SaplingFull)
    );
    assert_eq!(
        update(&state(EMPTY_TREE, &full), OUTPUT_AND_ACTIONS),
        Err(TreeUpdateError::OrchardFull)
    );
    assert_eq!(
        update(&state(EMPTY_TREE, &full), ONE_OUTPUT),
        Ok(new_state(&format!("01{FIRST_CMU}0000"), &full))
    );
}

#[test]
fn update_fills_the_last_leaf() {
    let full = full_tree();
    let almost = full.replacen(&format!("01{ZERO}01{ZERO}1f"), &format!("01{ZERO}001f"), 1);
    let filled = full.replacen(&format!("01{ZERO}01{ZERO}1f"), &format!("01{ZERO}01{FIRST_CMU}1f"), 1);
    assert_eq!(
        update(&state(&almost, EMPTY_TREE), ONE_OUTPUT),
        Ok(new_state(&filled, EMPTY_TREE))
    );
}

#[test]
fn new_tree_state_holds_the_trees_in_hexadecimal() {
    assert_eq!(new_tree_state(&[0, 0x1f, 0xa0], &[], 9, "regtest"), new_state("001fa0", ""));
}

#[test]
fn transaction_line_is_hexadecimal() {
    assert_eq!(hex_line(&[0, 1, 0x9a, 0xff]), "00019aff\n");
    assert_eq!(hex_line(&[]), "\n");
}

#[test]
fn raw_transaction_is_recorded() {
    for text in [ONE_OUTPUT, OUTPUT_AND_ACTIONS, NO_SHIELDED_PART] {
        assert_eq!(write_raw_transaction(&raw(text), BranchId::Nu5), Ok(format!("{text}\n")));
    }
    let longer = format!("{NO_SHIELDED_PART}0102");
    assert_eq!(
        write_raw_transaction(&raw(&longer), BranchId::Nu5),
        Ok(format!("{NO_SHIELDED_PART}\n"))
    );
}

#[test]
fn raw_transaction_that_cannot_be_recorded() {
    assert_eq!(
        write_raw_transaction(&raw("ffff"), BranchId::Nu5),
        Err(RecordError::NotATransaction)
    );
    assert_eq!(write_raw_transaction(&raw(""), BranchId::Nu5), Err(RecordError::NotATransaction));
    assert_eq!(
        write_raw_transaction(&raw(&actions_too_old_for_their_format()), BranchId::Nu5),
        Err(RecordError::NotWritable)
    );
}

/// A transaction of the sixth version with Orchard actions of the fifth network upgrade: it is
/// read, but not written.
fn actions_too_old_for_their_format() -> String {
    let fifth = "050000800a27a726";
    let sixth = "0600008098b684d8";
    format!("{}00", OUTPUT_AND_ACTIONS.replacen(fifth, sixth, 1))
}

#[test]
fn transaction_that_cannot_be_written() {
    let raw = raw(&actions_too_old_for_their_format());
    let transaction = create_transaction_from_raw_transaction(&raw, BranchId::Nu5).unwrap();
    assert_eq!(write_transaction(&transaction), Err(RecordError::NotWritable));
}

#[test]
fn raw_transaction_is_read_and_written() {
    let transaction =
        create_transaction_from_raw_transaction(&raw(ONE_OUTPUT), BranchId::Nu5).unwrap();
    assert_eq!(transaction.sapling_bundle().unwrap().shielded_outputs().len(), 1);
    assert_eq!(write_transaction(&transaction), Ok(format!("{ONE_OUTPUT}\n")));
    assert!(create_transaction_from_raw_transaction(&raw("05"), BranchId::Nu5).is_err());
}

#[test]
fn reading_undoes_writing_whatever_follows() {
    for text in [ONE_OUTPUT, OUTPUT_AND_ACTIONS, NO_SHIELDED_PART] {
        let first = create_transaction_from_raw_transaction(&raw(text), BranchId::Nu5).unwrap();
        let line = write_transaction(&first).unwrap();
        for (rest, height) in [("", 0), ("00", 9), ("050000800a27a726", u64::MAX)] {
            let data = bytes(&format!("{}{rest}", line.trim_end()));
            let again = create_transaction_from_raw_transaction(
                &RawTransaction { data, height },
                BranchId::Nu5,
            )
            .unwrap();
            assert_eq!(again.txid(), first.txid());
            assert_eq!(write_transaction(&again).unwrap(), line);
        }
    }
}

/// A transaction of the fourth version without parts, whose shielded balance is not zero.
const FOURTH_VERSION: &str = "0400008085202f89000000000000000000000500000000000000000000";

#[test]
fn transaction_of_the_fourth_version_is_read_back() {
    let first =
        create_transaction_from_raw_transaction(&raw(FOURTH_VERSION), BranchId::Nu5).unwrap();
    let line = write_transaction(&first).unwrap();
    assert_eq!(line, "0400008085202f89000000000000000000000000000000000000000000\n");
    let data = bytes(&format!("{}ff", line.trim_end()));
    let again = create_transaction_from_raw_transaction(
        &RawTransaction { data, height: 1 },
        BranchId::Nu5,
    )
    .unwrap();
    assert!(again.sapling_bundle().is_none());
    assert_eq!(write_transaction(&again).unwrap(), line);
}

#[test]
fn raw_transaction_is_recorded_under_every_branch() {
    assert_eq!(u32::from(BranchId::Nu5), NU5_BRANCH);
    for branch in [BranchId::Sprout, BranchId::Sapling, BranchId::Canopy, BranchId::Nu6] {
        assert_eq!(
            write_raw_transaction(&raw(NO_SHIELDED_PART), branch),
            Ok(format!("{NO_SHIELDED_PART}\n"))
        );
    }
}
