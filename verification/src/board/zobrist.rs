//! Zobrist hashing — a fixed 64-bit key for each piece/square combination, the side
//! to move, each castling-rights mask and each en passant file. XOR-ing the keys of a
//! position's features gives its hash.
//!
//! The keys are successive outputs of the linear congruential generator [`lcg`]:
//! piece keys from seed `0xDEADBEEFCAFEBABE` (piece-major, square-minor), castling keys
//! from seed `0xFEEDFACEDEADC0DE` and en passant keys from seed `0xBAADF00DDEADBEEF`.
//! The `generate_*` functions compute them; the tables below hold their values.
use vstd::prelude::*;
use crate::board::color::Color;
use crate::board::piece::PieceType;

verus! {

pub const PIECE_KEYS: [[u64; 64]; 12] = [
    [
        0x9affb2731d6896b5, 0xf88621c078e6ca20, 0x449ad043dadee8ef, 0x17d80fe88d400452,
        0x277ec7676986f1b9, 0xeb6522d912b7c5d4, 0x45ec95e5813d7393, 0x816393df1419bf26,
        0x216d4e17cedff4fd, 0x022c1edd229014c8, 0xb078c7b2fd726077, 0x61713ad1bba07f3a,
        0x06b45dd2d67da481, 0xc95b949b0b2e6afc, 0x1c43cd5f0a4f539b, 0x95dfb68dcf0a188e,
        0x5b051542d1024445, 0x07b374a50cd4bc70, 0x7dbe5d52af7830ff, 0x0b826067a8419f22,
        0xd303a499cfac5849, 0x3e08dae906fc3d24, 0x54e293369a071ca3, 0x3d8199cca0bb66f6,
        0x75d4c916259aa48d, 0x80deedafed496118, 0x83ff5fe3b7707a87, 0x02bfad196789040a,
        0x7335b10775502d11, 0x5be08209a3bfdc4c, 0xa1f68cdab6a6eeab, 0x48b08ca090ad4a5e,
        0x664f2cf48e7835d5, 0xfab5cb8d3636a2c0, 0xd4b7b314537f5d0f, 0x899a1be271b04df2,
        0x0c5896fe9fea42d9, 0xceba8aec9f0be874, 0xcc05d1529054e9b3, 0xf31923e09f7362c6,
        0x2b635d5e81ee181d, 0xc565f76691192168, 0x959dc35541ecf897, 0xa8387474a1451cda,
        0x591a0c1d1cbfb9a1, 0x39a8c9dff8e7019c, 0x00977fb2919b2dbb, 0xed319ae2ad35502e,
        0x4447bd302f536b65, 0x9d9018a229217d10, 0xf5505fd659a56d1f, 0x19f5aec681a910c2,
        0x1a043130fa59b169, 0xa01307a1e64bc7c4, 0x747d9b117fe7dac3, 0x09260331b02eb296,
        0xb365763293834fad, 0x857c160ec5b455b8, 0x54afbcecb2b8daa7, 0x92329f9fed91c9aa,
        0x3c58ea11e5054a31, 0xf6531df993a8daec, 0x709d0e602c0d10cb, 0xff58ac873b2f29fe,
    ],
    [
        0x7928d2319d5ce4f5, 0x8f23f963b4ea4b60, 0xcd3563645edb612f, 0xf55af6fefd88e792,
        0x4e3378309353a3f9, 0xd37a7040b760db14, 0x488060c5b2c0efd3, 0x40fd2782541a5666,
        0x1032420962434b3d, 0x4417481e860ffe08, 0x91ec5b7fb1e520b7, 0x1074a66f466c0a7a,
        0x5a58206e4299dec1, 0x79f96f87f44a683c, 0x014351624d1d97db, 0x5691a6d59a67d7ce,
        0x47acc05c629da285, 0x7c8ea80894260db0, 0x3bdaf4a61a52393f, 0xb151baad67ecd262,
        0x2aef810e43711a89, 0xeffd51400c302264, 0x83a2479ab12128e3, 0x08504be6bda34e36,
        0x58b95de4de570acd, 0x28dc10ee60611a58, 0x227b250489c2cac7, 0x910c9130eb10df4a,
        0x53b7e0d396367751, 0x998cbe91e250a98c, 0x8d79434e022dc2eb, 0xe3f51d1943ec599e,
        0x105e2d93395ea415, 0x5593e052bca9c400, 0x981e9ea16d7af54f, 0x78fa177670b1d132,
        0xe67b2c9c978b1519, 0x9f6709cf4dde9db4, 0x1c2bbe98518985f3, 0x34dafd3ea0769a06,
        0x0ac976eb70278e5d, 0x75d3df27c61caaa8, 0x7bc961a636e2d8d7, 0x4c7a6f242ffd481a,
        0x49758d0ebcd413e1, 0xbeb766a6bc809edc, 0x72d2c103aede91fb, 0x988efce59a09af6e,
        0xd0b20d539c28e9a5, 0xc30bacd7af8a6e50, 0xfd41c5e07406955f, 0x9e6ae762c4f4e402,
        0xd18f7a2460ba93a9, 0xa1bbb903a4d14d04, 0x9b513a49c8bb0703, 0x4d42c783018139d6,
        0x18fbeb45885dd5ed, 0x965b0e275bf7aef8, 0x7408afbc78164ae7, 0x7b79b9044eee44ea,
        0x59bff6ae9fabb471, 0x2a19cdc5c8df482c, 0xd95999081d11050b, 0xeb51bfadb84cd93e,
    ],
    [
        0xd37db89555c57335, 0x555b51bcc91d0ca0, 0x09f8e73b93e6196f, 0x18e15853df130ad2,
        0x86992a1d44589639, 0x7ef337b948ad3054, 0x80eb7808b9b6ac13, 0xbd4d96e806f02da6,
        0x34e1b33f2fe2e17d, 0x67f6575349e72748, 0x99ea51a7de6e20f7, 0x24637ca736e0d5ba,
        0x870be31ec4365901, 0xd5a49a7984b1a57c, 0xe7e62b018ce61c1b, 0xc853ceb04382d70e,
        0xed538a6e113d40c5, 0x1c64c9e790f69ef0, 0xa97e21078d4a817f, 0x63a0330cd6a945a2,
        0x6116a9ea4bfe1cc9, 0x99ede428d05747a4, 0xeb25e9ec45bd7523, 0x71fa99d2c8307576,
        0xa54e1bad97dfb10d, 0xebcac8658b201398, 0x62e4e691dd3b5b07, 0x30a06eb05c11fa8a,
        0x06bbed45dc2d0191, 0x4512d626f47cb6cc, 0x94865858c4bed72b, 0xf2c6063739b8a8de,
        0xe5d8aa78e9d95255, 0x980b8ba209ec2540, 0x83d7d7a78aa4cd8f, 0x3bc28ecf30949472,
        0x0ac1819a75842759, 0xea03443081f492f4, 0x3f7f2c5c1c506233, 0xb04330a31def1146,
        0xc76c1a98a9bd449d, 0x79ce93aa3e1773e8, 0x261c7f10da0ef917, 0x31ef3f5787feb35a,
        0xc0031da85588ae21, 0x5c15a090f4057c1c, 0x7f67c6fe213c363b, 0xe4b3852bc23b4eae,
        0x373eee01fb22a7e5, 0x247089b302129f90, 0xb3d6868330a5fd9f, 0x047aee8baef1f742,
        0x754abcad4303b5e9, 0xfe41c351a2ea1244, 0x346da6478b307343, 0xdb52b85172190116,
        0xebab472897249c2d, 0x49744f31f4824838, 0xdedf3eb03cb9fb27, 0x9f60cf43a964002a,
        0x6b8dd20eea825eb1, 0x50a2598f8650f56c, 0x14b8b752a53f394b, 0xcf0c35fdfd97c87e,
    ],
    [
        0x5ab5f8f5f0e24175, 0x235aa5ea62bf0de0, 0x42af0e60ae3f11af, 0x353d04a7211e6e12,
        0xdf1e06db4ad5c879, 0x3a7e1161c7dcc594, 0xfe00b5008e5ea853, 0xa0dd3ce08fdb44e6,
        0x5981bdd769feb7bd, 0x228d77f803559088, 0x6892fb5c7f4d6137, 0xeed92179a43ee0fa,
        0x4cf0cdb131931341, 0xb80365fb25a422bc, 0xb300ee3509e8e05b, 0x5dbcbde0d59b164e,
        0xafdf079597211f05, 0x20e40a2180867030, 0x8e891222cca109bf, 0x38259a5333b6f8e2,
        0x0bdb75e2c7935f09, 0xaea7e6f024b1ace4, 0xa7ed04bae01c0163, 0xf7e660a373a2dcb6,
        0xaa8079e69474974d, 0xc06c4dfcd2c64cd8, 0xb2ea8bb33e1a2b47, 0x5da1275f21cc55ca,
        0xebe28ae42d73cbd1, 0x32caf4cc1384040c, 0x6b927432ce9a2b6b, 0x22a7bf59cd52381e,
        0xf21709ed6a284095, 0x00781caf6b3dc680, 0x0edb32eaff3ce5cf, 0x9c99577b409897b2,
        0x2a04395828157999, 0xb081345edc8dc834, 0xf898f6af08e97e73, 0xdbc305571b1cc886,
        0x2247ed1880ef3add, 0x54e85e542e497d28, 0xb443b53747b15957, 0x0d22c3d160895e9a,
        0x88d7274cdd1d8861, 0x1296696da8b5995c, 0xc5e02add48f41a7b, 0xdb359d24d10a2dee,
        0x64c2fa112680a625, 0xd47105513dfa10d0, 0xc3013c9f73c3a5df, 0x8e8868451ee04a82,
        0x7ab2a97a9f751829, 0xb2cc00b051d61784, 0xb6f435e16f881f83, 0x0669841055360856,
        0xf18adeae2217a26d, 0x1cd4502794942178, 0x0528eb68ace3eb67, 0xe445a2500432fb6a,
        0x4abb8396cbc948f1, 0x30b05045a53de2ac, 0x60c67942b4d7ad8b, 0xfae12a6c064ff7be,
    ],
    [
        0xabb2961b58f34fb5, 0x5236f7866f104f20, 0xe11a93d5222649ef, 0x320a3d25f2eb1152,
        0x3a226e0cb50b3ab9, 0xe74a7d08762f9ad4, 0xfc2bdb8d68f8e493, 0x763d80fd921b9c26,
        0x327ddaa882d6cdfd, 0x8faec9ac879b39c8, 0x771c50c0d0c2e177, 0xfe10bf3be5c62c3a,
        0x56406faea0f00d81, 0xc20e026f8061dffc, 0x0220908b4465e49b, 0xd5a8f5539bf0958e,
        0xea25e6f0ee893d45, 0xd2a6b76120158170, 0xf8f1761ddc95d1ff, 0xe919e28afe55ec22,
        0x0449b630d470e149, 0x3e8411e21a7f5224, 0x7ea2c434487ccda3, 0x986da7fcb33a83f6,
        0xa8d1ba4e5655bd8d, 0xd4e3820edc93c618, 0x060baa92789f3b87, 0xe731be29e37ff10a,
        0x266afc80b04ad611, 0xf7e55dabb8a6914c, 0x416309ba2fffbfab, 0x439e18d999f9075e,
        0x860a3cc8c48b6ed5, 0x6eb80dca6ddea7c0, 0x946dddba5f833e0f, 0xba20ad166ffddaf2,
        0x83d0ba49dd7f0bd9, 0x85296af83eea3d74, 0xa0fbf6506f94dab3, 0xd5b2df04db3fbfc6,
        0xaaa80ef587fd711d, 0x45ccd54f0bf2c668, 0x9b1738cddc09f997, 0x19d86b49b0dd49da,
        0x9df34c3b89d2a2a1, 0x6026358323d0f69c, 0x2162dd92c6463ebb, 0x76eac309b1b64d2e,
        0x119b8a773882e465, 0xfee0213ac080c210, 0x50e919b0619f8e1f, 0x1db2377033ffddc2,
        0x275100dfb44eba69, 0xe728c6e362d55cc4, 0xaa7b3bac5e020bc3, 0x4fc9bb643e184f96,
        0xd6d07810cb76e8ad, 0x50d16f14816d3ab8, 0x9cafa2a8b4d41ba7, 0x9df204e0a69b36aa,
        0x655f7a1689c07331, 0xf282629e3ee60fec, 0x43edf7a17c1a61cb, 0xd39bdc850db566fe,
    ],
    [
        0xa7bf487db8389df5, 0x847ee7e61b50d060, 0x5e996b44a3dbc22f, 0x7c61eeaac3b8f492,
        0x64f21f87d138ecf9, 0x380b0f6ad4e5b014, 0x09864e5dc1c560d3, 0x2e5846d1f0f13366,
        0x230e2d812cab243d, 0x8374e173ebf82308, 0x9f79692a4f0ea1b7, 0x073d29d892b6b77a,
        0x46bc729c688d47c1, 0x395e95507e2add3c, 0x8b68e568fc9d28db, 0xb83a7e5e21c354ce,
        0xbb2648de51b59b85, 0xc3ca285c6ce3d2b0, 0x293f39d90168da3f, 0xaeefaa3bf5c61f62,
        0x4335f0d1d0d6a389, 0x3b097f8a03003764, 0x01a73a64871fd9e3, 0x3e1b6153ba376b36,
        0x1f25472b9fc323cd, 0x4afd3ca98dc87f58, 0x18de909b990a8bc7, 0xceec8a62886ccc4a,
        0x595ad579caf22051, 0xc60550579d245e8c, 0x9f4362b3392f93eb, 0x23d323487aed169e,
        0x398b24b34342dd15, 0x861bbd9ddf0ec900, 0x8b3fae2e7fb7d64f, 0xf72e0c89ce045e32,
        0xf31278380400de19, 0xf772dc29ca49f2b4, 0xd016d4ede89276f3, 0x31304cf7e197f706,
        0xcaff8ad29127e75d, 0x916afcc78c534fa8, 0x1bc171db3358d9d7, 0xcf9bb7adb03a751a,
        0xfa0a39cfd1e7fce1, 0xd0c4b0ceee9793dc, 0x83c3c4067972a2fb, 0xd569c11c8f7fac6e,
        0x373b2c8a8b6962a5, 0x144c13a326e6b350, 0x366ac60b5e79b65f, 0x3afaa90b4d90b102,
        0xc753ed13ffd09ca9, 0x236e848dc727e204, 0x488c6a3b7ede3803, 0xd7183062ffffd6d6,
        0xd358c93375826eed, 0x32ebe258404d93f8, 0x4d5de49580ca8be7, 0x0c36afb217dcb1ea,
        0xc2f16e0aaaa7dd71, 0x3c3ee856ac897d2c, 0xf067803e6b47560b, 0xb60b37af8f08163e,
    ],
    [
        0x5f80048578f22c35, 0xead51159d4c091a0, 0xd7cd3145279f7a6f, 0xe0652cfd42c817d2,
        0x43ada5972d9edf39, 0x0bf2df75a53f0554, 0x53d6032e51041d13, 0x7aac9d31cf9c0aa6,
        0x3513136859bbba7d, 0xd2ac8af485ac4c48, 0xc8103360b670a1f7, 0x7922020f825082ba,
        0xfd568c3c1eaac201, 0xe3248e6f483f1a7c, 0xede55a4932cead1b, 0xedadc1ff3253540e,
        0x6878553c3ae639c5, 0x69dce514a43163f0, 0xca20892ebf5a227f, 0x96b807ab194792a2,
        0xdedcdac75b04a5c9, 0x50dbe9f26f745ca4, 0xb692e375e4452623, 0x8fa5672efbd99276,
        0xef93518d72fcca0d, 0x48f7dece0ba47898, 0xef738abceb9c1c07, 0xce6eab0037d2e78a,
        0x636dfbfa23a9aa91, 0xd4cf2e08ba3d6bcc, 0x29bbec087a69a82b, 0xbfe356b18b6e65de,
        0x08763a65708e8b55, 0x45fb686fcc0e2a40, 0xd0aeb36a741aae8f, 0xaf7a4f4ba9ec2172,
        0xeacc7e7f49daf059, 0x8375ecefdfece7f4, 0x3c5021634c225333, 0x4c89595cf1656e46,
        0x565703aaaeae9d9d, 0x33eea82da4ab18e8, 0xb113d3f829ddfa17, 0x0e32015fd5e0e05a,
        0x7c9bbac16b9d9721, 0xa3c1b445d249711c, 0xfd25935682b9473b, 0x0c0224e8d5a64bae,
        0xac125841b97420e5, 0xb79010a94e6be490, 0x36cf81200e921e9f, 0x80b7df720ad2c442,
        0x67c59c73403abee9, 0x68879e71b00da744, 0xf63d78603a5ca443, 0x0cec95d3ae2c9e16,
        0x7d5435e1427a352d, 0x93cce9e596752d38, 0xb2c92cf67d073c27, 0xf73754c61f376d2a,
        0x6f7683dbf4bf87b1, 0xdcf3a57387682a6c, 0x0449022f329e8a4b, 0xe0d89a6b4588057e,
    ],
    [
        0xb2cac0cb455ffa75, 0xc9d1a06d489f92e0, 0xb289db96e1b172af, 0xb2e1ee125f587b12,
        0xd863ff39987d1179, 0x80ee3384e87b9a94, 0xd0b6b70a0ef51953, 0xb6b8ad72915c21e6,
        0xeea4f0dd3c4890bd, 0x3fadc9b7e9f7b588, 0xe7bd6dde0328e237, 0xa62e18b5cbd38dfa,
        0xd650b0cb99887c41, 0xdbfb3d3447de97bc, 0xf48bf2fd273a715b, 0xd243a01ed8e0934e,
        0x883d11a9645b1805, 0xac641016433e3530, 0x6f540f33daa9aabf, 0x6c6f941aa81a45e2,
        0xff431257513ae809, 0xc13527e5311bc1e4, 0x7bf469f0e82cb263, 0x2fe3bc662b60f9b6,
        0x167faf8b1242b04d, 0xdc0a23b0bb67b1d8, 0x53166da6fc93ec47, 0xc234b9df58f242ca,
        0xf90eeb38a0b174d1, 0x2aa9dedf4931b90c, 0xca0bc20ac3edfc6b, 0x7b0ef9d926bcf51e,
        0xcdd373e816ae7995, 0x7e346161821ccb80, 0x947105db90ebc6cf, 0x180b069f92f524b2,
        0x49233a509d4d4299, 0x3d3ac05621131d34, 0xa65ca3fab2846f73, 0x8c7518820de82586,
        0x608ea31132d193dd, 0x44c91b748a3a2228, 0xc749f68fdbd95a57, 0x512d7a77d9108b9a,
        0xcda909644d337161, 0x267d7b13d8268e5c, 0x086ded17425a2b7b, 0xa368f6832f6a2aee,
        0x381466739ce31f25, 0xa29d5397545055d0, 0x54fa81b85628c6df, 0x1b8d7d9d4b061782,
        0x0aa41bbd73cd2129, 0x34e98cb08ec6ac84, 0xf623056a38bd5083, 0x52ff5e6e9bdea556,
        0xa357ce0d949e3b6d, 0x85a5408289240678, 0x973a9b7555ca2c67, 0x48a7f2a3c3eb686a,
        0x4bd5ae1f6e4771f1, 0x7768cf80a8c217ac, 0x4e78ba0fc25ffe8b, 0xb7e3dd912c7534be,
    ],
    [
        0x07ad7c5807c208b5, 0x466b2d27642dd420, 0x024aa9644651aaef, 0x5251054c48aa1e52,
        0x2b9c8a62201383b9, 0x96566ea3dfdb6fd4, 0x302d628a33d85593, 0x5bd0eaaad9717926,
        0xef9840174691a6fd, 0xf8e41a6aee1a5ec8, 0xd666df0e71776277, 0xb55711f5c67fd93a,
        0xfc158544ef667681, 0xade3a5df264954fc, 0x823285ec5a20759b, 0x6a80c6ce60ab128e,
        0x64c977c4c8543645, 0x3d380fb9074a4670, 0x98297677579772ff, 0x9074b70a217e3922,
        0xdf95194bd1b96a49, 0xe429ea2b59366724, 0xaf88aafc5b167ea3, 0xb9050b623c0da0f6,
        0xee34fa83ffd4d68d, 0x69e931f942522b18, 0x53ae5e0c9831fc87, 0x7908bf01930ade0a,
        0x3a9735b868497f11, 0xd5f37722c341464c, 0x08a47cb125fc90ab, 0x5290c97ce818c45e,
        0x9f4a6ad43fe2a7d5, 0xc4cd8baf8e7aacc0, 0xb0e4d7796a6b1f0f, 0xf29516d6585f67f2,
        0x26f684f12c97d4d9, 0xb122c4b76efc9274, 0xdf1ff2ac73f8cbb3, 0x175978167a601cc6,
        0x6bb44771afd0ca1d, 0x9b08ec52b2406b68, 0x527aed1fa58afa97, 0xb9e17202b10976da,
        0x6f4161e8ace98ba1, 0xa5ec17dc496eeb9c, 0x74cbbb9358954fbb, 0xfd5aafc9880b4a2e,
        0xb418c7174ff65d65, 0xf7bb682295d40710, 0xa24c9638597daf1f, 0x5a2f92632d6aaac2,
        0x8b197056d8c7c369, 0xbeb7380b1492f1c4, 0xf2ddbd6762403cc3, 0x7534dc1d5c55ec96,
        0x48128c140e2e81ad, 0xc02acd085d9a1fb8, 0x8c75dbddf7535ca7, 0xc13b67974d38a3aa,
        0x81944fd65d7f9c31, 0xde0752d129d744ec, 0x80c21e424acbb2cb, 0xf4649b937f0fa3fe,
    ],
    [
        0xbae084e4ea5856f5, 0xbe26d44a54ab5560, 0x976d538209c0232f, 0x466d5eba6dfd0192,
        0x5c912e3812a235f9, 0x79613dcd0c9e8514, 0xc9e5ee1637edd1d3, 0x3aa480f28b1c1066,
        0x8135df462ad6fd3d, 0xd645f41da7544808, 0x9e5bcd907d9c22b7, 0xc8f6488f0995647a,
        0x1509119e7684b0c1, 0x25a196c6ccbf523c, 0x9eb638548bc0b9db, 0x9b02498854f2d1ce,
        0x4c4dcb6da1119485, 0xcff8775fed9597b0, 0xb1d829427a637b3f, 0x4f67317644b36c62,
        0x32c78f333ac02c89, 0x3cf9b8cd39044c64, 0xd52cfa9d45428ae3, 0xfe40655d611f8836,
        0x3943ed5ffdf33ccd, 0xae8ded0285a3e458, 0x10fbd8e2cab64cc7, 0xa74163cdcd5cb94a,
        0xa5184788e0b1c951, 0xe7e91c81e1ac138c, 0xa0e83bd8f0d564eb, 0x3f59df93aac1d39e,
        0xcb22c293366b1615, 0xd20313f1be67ce00, 0x7c46c405d4d8b74f, 0xfb18928e096aeb32,
        0x0a4bedfa65faa719, 0xb2ad80fdeae947b4, 0x3857455f28bf67f3, 0xebde4e6aba0d5406,
        0x34adf24ff7ec405d, 0x7f412381d1fdf4a8, 0x17f8df772332dad7, 0xfef7d742950ba21a,
        0x6b26d49b00ffe5e1, 0x181c29f9af6288dc, 0x848fce0ba5aab3fb, 0x277273a30ac9a96e,
        0x065877842ceddba5, 0xb47fb3abb036f850, 0x237e04de7cd0d75f, 0x832ec3b711407e02,
        0xa813f287ed6aa5a9, 0xec8e972132b27704, 0x4281bd63df256903, 0x26c59f3ac2d273d6,
        0x19e6d2f8916b07ed, 0x477593a3991778f8, 0x467e4e5e8de2cce7, 0x298344f2425f1eea,
        0x183b1eae48a80671, 0x111257bf63e7b22c, 0xf74d0b2f3c21a70b, 0x9510b7bdb897533e,
    ],
    [
        0x2be4fd1b5762e535, 0x304f9093875816a0, 0xe5737caf203cdb6f, 0x85a47a597e9124d2,
        0x5f58c556fe692839, 0xd48b052a3004da54, 0xf55b2623d3758e13, 0xf5af04a2c99be7a6,
        0x82679ed1db58937d, 0xc2fb89836ae57148, 0x42c3b874e3d722f7, 0x0ae6f1166c542fba,
        0xdc91b30ac5232b01, 0xa8bbfd9964808f7c, 0x5d953a89bc5b3e1b, 0x8727787080f7d10e,
        0xbeb9310368d332c5, 0x85d730b9336028f0, 0xd5ec51d8c74dc37f, 0x93b0e91910f9dfa2,
        0x81b7aba02a8f2ec9, 0x49aa305261c571a4, 0xbecba7f6eef0d723, 0x5f4441a30dd6af76,
        0x6de702cf0edde30d, 0x8379861aaa9cdd98, 0x4ff4fba0e060dd07, 0xfd1266502f27d48a,
        0xfbec6885b02a5391, 0xc2822b529db220cc, 0x9669f385b4b8792b, 0x3972da8d89f822de,
        0x7b10ce9e8487c455, 0x67f9695b1f242f40, 0x5f0e614ce4748f8f, 0x36f5d5f1f557ae72,
        0x21c94599f7b5b959, 0x12d8a1e2f6193cf4, 0xf04e8a27a9184433, 0x6e0da9b0902fcb46,
        0xa97876881d63f69d, 0x783f9dfedeb2bde8, 0xbedee1f83110fb17, 0x90e7fceefc570d5a,
        0x4acb5823ffb68021, 0xdf00d2bdd341661c, 0x1997b4f749da583b, 0xde76854022e548ae,
        0x0e47b8b1ce0999e5, 0x3bbc3e7e80b92990, 0xa7aeac0364623f9f, 0x680db9e995c79142,
        0xeb7ee7bd6ff5c7e9, 0xd6418bb21a653c44, 0x031837aa17acd543, 0xeec415d2e2943b16,
        0x00a82ca74093ce2d, 0x32fbe71400dc1238, 0x5c9a6fc785b87d27, 0x9d80e24b6a9eda2a,
        0x6aa34540f600b0b1, 0x107407ecf0335f6c, 0xfdb72f8546a1db4b, 0xa1882574944c427e,
    ],
    [
        0x870fa2d4f921b375, 0x7d74d3fba97417e0, 0x2c8a61d4be07d3af, 0xa7a0275369a68812,
        0x2f41c80eb1a85a79, 0xbb3c8d544b4e6f94, 0x7d28ef76feaf8a53, 0x77d76195f830fee6,
        0x5a990f9a8a5669bd, 0x0074ca32ce0dda88, 0x2f5b4f7ea0686337, 0x8d257d3605fc3afa,
        0x75994e38b181e541, 0x0d607c9c56cd0cbc, 0x963ac4362c30025b, 0x79d0f793effa104e,
        0xac1983a5d9d91105, 0x22fae4fe55e9fa30, 0x410a1ab802964bbf, 0x07f7f3a9c59192e2,
        0x590bf8697f667109, 0x772d7f01a4b9d6e4, 0x7582c18ae0616363, 0x38a2bccff57316b6,
        0xfcaa538974d4c94d, 0xedb94dc3167d16d8, 0xa0800c806571ad47, 0x9f2e4c7a1fac2fca,
        0x094ffe96bcf31dd1, 0x8a7e9bd230936e0c, 0x53eff82141e5cd6b, 0x90424493e0fbb21e,
        0x3e0e78bff478b295, 0x2b5776f9fdefd080, 0xbbb10f64ed7ea7cf, 0x8cbbe1faab65b1b2,
        0x6f7f66d1d0090b99, 0x775b472f31cc7234, 0x68dfb9890d436073, 0xc6415f3b00078286,
        0xd33a668e7277ecdd, 0x7fd2ae4a0d9ec728, 0xfc0d0dd6eb655b57, 0x828e9c749e2bb89a,
        0x47e61bc89f4d5a61, 0x45beeab1be4b835c, 0x078ade43a5643c7b, 0xc559ff5a7b9e27ee,
        0xd20c05780d899825, 0x2ba5bd12249a9ad0, 0xadec6259f471e7df, 0x6cdfcae89a3fe482,
        0x645b5cc85ea92a29, 0xd6b9ffdc3ceb4184, 0x707b5802b4168183, 0x2f3f6ae30edb4256,
        0x9bbd48347de8d46d, 0xb1edd9ec9a27eb78, 0x54d581cb8b146d67, 0xd227b0becd37d56a,
        0x7a6bc5546bc99af1, 0xf25d9382a7fa4cac, 0x3a0fb8795a8c4f8b, 0x1445ef760d6e71be,
    ],
];

pub const SIDE_KEY: u64 = 0x94D273B5A0F8B6C1;

pub const CASTLING_KEYS: [u64; 16] = [
        0x6e66e1bd77d68a55, 0xb266ee213636fd40, 0x07f836ab2cf4c58f, 0x1e51de23bcab2c72,
        0x7cf25b3cc2e4df59, 0x146122062f3ceaf4, 0x1172f91dadafda33, 0xb2ac41f8e03f2946,
        0xf70bc9cf85b97c9d, 0x1dbf59dda1354be8, 0x3d3758c3cc75f117, 0xa13e899b91204b5a,
        0xcae1edd312d86621, 0x21fc9e04df50d41c, 0xd32f9f131622ae3b, 0x6ed0f41cfc4666ae,
    ];

pub const EN_PASSANT_KEYS: [u64; 8] = [
        0x55031b3962c5a252, 0xb93196373165b7b9, 0x6792d6f7f71a93d4, 0x47cf0b4a90cda993,
        0xc8b1b652c93d3d26, 0x5db4e05b979f1afd, 0xdd2eb9e75e03c2c8, 0x84a0a3fa1a19f677,
    ];

/// Castling rights bit flags.
pub const CASTLE_WK: u8 = 1;
pub const CASTLE_WQ: u8 = 2;
pub const CASTLE_BK: u8 = 4;
pub const CASTLE_BQ: u8 = 8;

pub const PIECE_SEED: u64 = 0xDEADBEEFCAFEBABE;
pub const CASTLING_SEED: u64 = 0xFEEDFACEDEADC0DE;
pub const EP_SEED: u64 = 0xBAADF00DDEADBEEF;

/// One step of the generator: `state * 6364136223846793005 + 1442695040888963407` mod 2^64.
pub open spec fn lcg_spec(state: u64) -> u64 {
    vstd::wrapping::u64_specs::wrapping_add(
        vstd::wrapping::u64_specs::wrapping_mul(state, 6364136223846793005u64),
        1442695040888963407u64,
    )
}

/// The state after `n` steps of the generator from `seed`.
pub open spec fn lcg_iter(seed: u64, n: nat) -> u64
    decreases n,
{
    if n == 0 {
        seed
    } else {
        lcg_spec(lcg_iter(seed, (n - 1) as nat))
    }
}

/// One step of the generator.
pub fn lcg(state: u64) -> (r: u64)
    ensures
        r == lcg_spec(state),
{
    state.wrapping_mul(6364136223846793005).wrapping_add(1442695040888963407)
}

/// The `n` successive generator outputs after `seed`.
fn generate_keys(seed: u64, n: usize) -> (keys: Vec<u64>)
    ensures
        keys@.len() == n,
        forall|i: int| 0 <= i < n ==> #[trigger] keys@[i] == lcg_iter(seed, (i + 1) as nat),
{
    let mut keys: Vec<u64> = Vec::new();
    let mut state = seed;
    let mut i: usize = 0;
    while i < n
        invariant
            i <= n,
            keys@.len() == i,
            state == lcg_iter(seed, i as nat),
            forall|j: int| 0 <= j < i ==> #[trigger] keys@[j] == lcg_iter(seed, (j + 1) as nat),
        decreases n - i,
    {
        state = lcg(state);
        keys.push(state);
        i = i + 1;
    }
    keys
}

/// The piece keys: row `p`, column `sq` is output number `p * 64 + sq + 1` after the piece seed.
pub fn generate_piece_keys() -> (keys: Vec<Vec<u64>>)
    ensures
        keys@.len() == 12,
        forall|p: int, sq: int| 0 <= p < 12 && 0 <= sq < 64 ==> #[trigger] keys@[p]@[sq]
            == lcg_iter(PIECE_SEED, (p * 64 + sq + 1) as nat),
{
    let flat = generate_keys(PIECE_SEED, 768);
    let mut keys: Vec<Vec<u64>> = Vec::new();
    let mut p: usize = 0;
    while p < 12
        invariant
            p <= 12,
            flat@.len() == 768,
            forall|i: int| 0 <= i < 768 ==> #[trigger] flat@[i] == lcg_iter(PIECE_SEED, (i + 1) as nat),
            keys@.len() == p,
            forall|q: int, sq: int| 0 <= q < p && 0 <= sq < 64 ==> #[trigger] keys@[q]@[sq]
                == lcg_iter(PIECE_SEED, (q * 64 + sq + 1) as nat),
        decreases 12 - p,
    {
        let mut row: Vec<u64> = Vec::new();
        let mut sq: usize = 0;
        while sq < 64
            invariant
                p < 12,
                sq <= 64,
                flat@.len() == 768,
                forall|i: int| 0 <= i < 768 ==> #[trigger] flat@[i] == lcg_iter(PIECE_SEED, (i + 1) as nat),
                row@.len() == sq,
                forall|j: int| 0 <= j < sq ==> #[trigger] row@[j] == lcg_iter(PIECE_SEED, (p * 64 + j + 1) as nat),
            decreases 64 - sq,
        {
            row.push(flat[p * 64 + sq]);
            sq = sq + 1;
        }
        keys.push(row);
        p = p + 1;
    }
    keys
}

/// The key toggled when Black is to move.
pub fn generate_side_key() -> (k: u64)
    ensures
        k == SIDE_KEY,
{
    SIDE_KEY
}

/// The castling keys: entry `i` is output number `i + 1` after the castling seed.
pub fn generate_castling_keys() -> (keys: Vec<u64>)
    ensures
        keys@.len() == 16,
        forall|i: int| 0 <= i < 16 ==> #[trigger] keys@[i] == lcg_iter(CASTLING_SEED, (i + 1) as nat),
{
    generate_keys(CASTLING_SEED, 16)
}

/// The en passant keys: entry `i` is output number `i + 1` after the en passant seed.
pub fn generate_ep_keys() -> (keys: Vec<u64>)
    ensures
        keys@.len() == 8,
        forall|i: int| 0 <= i < 8 ==> #[trigger] keys@[i] == lcg_iter(EP_SEED, (i + 1) as nat),
{
    generate_keys(EP_SEED, 8)
}

/// Returns the piece index into PIECE_KEYS: color * 6 + piece_type.
pub fn piece_key_index(color: Color, pt: PieceType) -> (i: usize)
    ensures
        i == color.idx() * 6 + pt.idx(),
        i < 12,
{
    color.index() * PieceType::NUM + pt.index()
}

/// Accumulates a Zobrist hash from scratch (used when loading a FEN).
pub struct ZobristHasher {
    pub hash: u64,
}

impl ZobristHasher {
    pub fn new() -> (z: Self)
        ensures
            z.hash == 0,
    {
        ZobristHasher { hash: 0 }
    }

    pub fn toggle_piece(&mut self, color: Color, pt: PieceType, sq: usize)
        requires
            sq < 64,
        ensures
            final(self).hash == old(self).hash ^ PIECE_KEYS[(color.idx() * 6 + pt.idx()) as int][sq as int],
    {
        self.hash = self.hash ^ PIECE_KEYS[piece_key_index(color, pt)][sq];
    }

    pub fn toggle_side(&mut self)
        ensures
            final(self).hash == old(self).hash ^ SIDE_KEY,
    {
        self.hash = self.hash ^ SIDE_KEY;
    }

    pub fn set_castling(&mut self, rights: u8)
        requires
            rights < 16,
        ensures
            final(self).hash == old(self).hash ^ CASTLING_KEYS[rights as int],
    {
        self.hash = self.hash ^ CASTLING_KEYS[rights as usize];
    }

    pub fn set_ep(&mut self, file: u8)
        requires
            file < 8,
        ensures
            final(self).hash == old(self).hash ^ EN_PASSANT_KEYS[file as int],
    {
        self.hash = self.hash ^ EN_PASSANT_KEYS[file as usize];
    }
}

} // verus!
