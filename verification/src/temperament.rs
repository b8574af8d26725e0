//! Proof that the tabulated frequencies are those of twelve-tone equal
//! temperament: the frequency of note `n` is `440 * 2^((n - 69) / 12)` Hz,
//! rounded down to a multiple of 1/65536 Hz.
//!
//! The twelfth root is avoided by raising both sides to the twelfth power:
//! `f` is the rounded-down frequency of `n` exactly when
//! `f^12 * 2^69 <= a4^12 * 2^n < (f + 1)^12 * 2^69`.

use vstd::prelude::*;
use vstd::arithmetic::power2::{lemma2_to64, lemma_pow2_adds, lemma_pow2_pos, lemma_pow2_unfold, pow2};
use crate::tuning::{frequency, octaves_below_top, semitone_in_top, top_octave, A4_FREQUENCY};

verus! {

/// The twelfth power.
pub open spec fn pow12(x: int) -> int {
    let x2 = x * x;
    let x4 = x2 * x2;
    let x8 = x4 * x4;
    x8 * x4
}

/// Whether `f` is the frequency of `note` in equal temperament, rounded
/// down: `f <= a4 * 2^((note - 69) / 12) < f + 1`, both sides raised to
/// the twelfth power and cleared of the negative exponent.
pub open spec fn is_tempered(note: int, f: int) -> bool {
    &&& 0 <= f
    &&& pow12(f) * pow2(69) <= pow12(A4_FREQUENCY as int) * pow2(note as nat)
    &&& pow12(A4_FREQUENCY as int) * pow2(note as nat) < pow12(f + 1) * pow2(69)
}

/// The twelfth power does not decrease on the non-negative integers.
pub proof fn lemma_pow12_increases(a: int, b: int)
    requires
        0 <= a <= b,
    ensures
        0 <= pow12(a) <= pow12(b),
{
    let a2 = a * a;
    let b2 = b * b;
    assert(0 <= a2 <= b2) by (nonlinear_arith)
        requires
            0 <= a <= b,
            a2 == a * a,
            b2 == b * b,
    ;
    let a4 = a2 * a2;
    let b4 = b2 * b2;
    assert(0 <= a4 <= b4) by (nonlinear_arith)
        requires
            0 <= a2 <= b2,
            a4 == a2 * a2,
            b4 == b2 * b2,
    ;
    let a8 = a4 * a4;
    let b8 = b4 * b4;
    assert(0 <= a8 <= b8) by (nonlinear_arith)
        requires
            0 <= a4 <= b4,
            a8 == a4 * a4,
            b8 == b4 * b4,
    ;
    assert(0 <= a8 * a4 <= b8 * b4) by (nonlinear_arith)
        requires
            0 <= a4 <= b4,
            0 <= a8 <= b8,
    ;
}

/// Doubling a number multiplies its twelfth power by `2^12`.
pub proof fn lemma_pow12_double(x: int)
    ensures
        pow12(2 * x) == 4096 * pow12(x),
{
    let x2 = x * x;
    let x4 = x2 * x2;
    let x8 = x4 * x4;
    let y = 2 * x;
    let y2 = y * y;
    let y4 = y2 * y2;
    let y8 = y4 * y4;
    assert(y2 == 4 * x2) by (nonlinear_arith)
        requires
            y == 2 * x,
            y2 == y * y,
            x2 == x * x,
    ;
    assert(y4 == 16 * x4) by (nonlinear_arith)
        requires
            y2 == 4 * x2,
            y4 == y2 * y2,
            x4 == x2 * x2,
    ;
    assert(y8 == 256 * x8) by (nonlinear_arith)
        requires
            y4 == 16 * x4,
            y8 == y4 * y4,
            x8 == x4 * x4,
    ;
    assert(y8 * y4 == 4096 * (x8 * x4)) by (nonlinear_arith)
        requires
            y8 == 256 * x8,
            y4 == 16 * x4,
    ;
}

/// An octave down halves the frequency: if `upper` is the rounded-down
/// frequency of `note + 12`, then `upper / 2` is that of `note`.
pub proof fn lemma_octave_down(note: int, upper: int)
    requires
        0 <= note,
        is_tempered(note + 12, upper),
    ensures
        is_tempered(note, upper / 2),
{
    let lower = upper / 2;
    let k = pow12(A4_FREQUENCY as int);
    let p = pow2(69) as int;
    let q = pow2(note as nat) as int;
    let q12 = pow2((note + 12) as nat) as int;
    lemma_pow2_pos(69);
    lemma_pow2_pos(note as nat);
    lemma_pow2_adds(note as nat, 12);
    lemma2_to64();
    assert(q12 == q * 4096);
    lemma_pow12_increases(2 * lower, upper);
    lemma_pow12_increases(upper + 1, 2 * (lower + 1));
    lemma_pow12_double(lower);
    lemma_pow12_double(lower + 1);
    lemma_pow12_increases(0, lower);
    let lo12 = pow12(lower);
    let hi12 = pow12(lower + 1);
    let up12 = pow12(upper);
    let up12n = pow12(upper + 1);
    assert(lo12 * p <= k * q) by (nonlinear_arith)
        requires
            4096 * lo12 <= up12,
            up12 * p <= k * (q * 4096),
            p > 0,
    ;
    assert(k * q < hi12 * p) by (nonlinear_arith)
        requires
            up12n <= 4096 * hi12,
            k * (q * 4096) < up12n * p,
            p > 0,
    ;
}

/// The twelfth power of the frequency of A4.
spec fn a4_pow12() -> int {
    330515084590118424004505409813583734581734230074233780525906433441639176339456000000000000int
}

/// Two to the 175th power.
spec fn two_pow175() -> int {
    47890485652059026823698344598447161988085597568237568int
}

/// `pow12`, one squaring at a time.
proof fn lemma_pow12_is(x: int, x2: int, x4: int, x8: int, x12: int)
    requires
        x2 == x * x,
        x4 == x2 * x2,
        x8 == x4 * x4,
        x12 == x8 * x4,
    ensures
        pow12(x) == x12,
{
}

/// The two constants are what their names say.
proof fn lemma_constants()
    ensures
        pow12(A4_FREQUENCY as int) == a4_pow12(),
        pow2(175) == two_pow175(),
{
    lemma2_to64();
    vstd::arithmetic::power2::lemma2_to64_rest();
    lemma_pow2_adds(64, 64);
    lemma_pow2_adds(128, 47);
    assert(0x10000000000000000int * 0x10000000000000000int
        == 0x100000000000000000000000000000000int);
    assert(0x100000000000000000000000000000000int * 0x800000000000int == two_pow175());
    lemma_pow12_is(
        28835840int,
        831505668505600int,
        691401676756944755737231360000int,
        478036278622314722085230119045615567890543678167449600000000int,
        330515084590118424004505409813583734581734230074233780525906433441639176339456000000000000int,
    );
}

/// Entry 0 of the table is the frequency of note 244, rounded down.
proof fn lemma_entry_0()
    ensures
        pow12(top_octave(0)) <= a4_pow12() * (two_pow175() * 1),
        a4_pow12() * (two_pow175() * 1) < pow12(top_octave(0) + 1),
{
    assert(two_pow175() * 1 == 47890485652059026823698344598447161988085597568237568int);
    assert(a4_pow12() * 47890485652059026823698344598447161988085597568237568int == 15828527916352141941396363083825380755616144924489316936218772578335888848477311895674922439216608490399458430806571911887619883008000000000000int);
    lemma_pow12_is(
        707869788400int,
        501079637329460774560000int,
        251080802946223939753071671413675143193600000000int,
        63041569608120536224941578605876665556867585738260767023864381107445464407080960000000000000000int,
        15828527916197172310841704326394843373556188204698065408563226130519217138429165801461218648562067815186228249788153856000000000000000000000000int,
    );
    lemma_pow12_is(
        707869788401int,
        501079637330876514136801int,
        251080802947642736300466494449794672002142513601int,
        63041569608833001377618036464201467806994365582084327340580394733594536192839258108530469987201int,
        15828527916465501794750276062653439544576308592966327626604280237410904199014518269834238807503687565471200346224757362497194059142500438420801int,
    );
}

/// Entry 1 of the table is the frequency of note 245, rounded down.
proof fn lemma_entry_1()
    ensures
        pow12(top_octave(1)) <= a4_pow12() * (two_pow175() * 2),
        a4_pow12() * (two_pow175() * 2) < pow12(top_octave(1) + 1),
{
    assert(two_pow175() * 2 == 95780971304118053647396689196894323976171195136475136int);
    assert(a4_pow12() * 95780971304118053647396689196894323976171195136475136int == 31657055832704283882792726167650761511232289848978633872437545156671777696954623791349844878433216980798916861613143823775239766016000000000000int);
    lemma_pow12_is(
        749961916422int,
        562442876083358913282084int,
        316341988856920629860168556890738000308955383056int,
        100072253913952095950668732483762318983316049419872368812144521065809374352524084719279691899136int,
        31657055832534365825271844935236634882074571014547759300459871251048884117480133763348877276871825342443698429990245545379455807099222995439616int,
    );
    lemma_pow12_is(
        749961916423int,
        562442876084858837114929int,
        316341988858607872809073440828106051568354675041int,
        100072253915019587530954352668848904552803613691413207512620902299138514434208582822960708351681int,
        31657055833040904439666551155236023424157062925497105976429065177118128416100749615136744808279377723945231301093807838270239950461829501093921int,
    );
}

/// Entry 2 of the table is the frequency of note 246, rounded down.
proof fn lemma_entry_2()
    ensures
        pow12(top_octave(2)) <= a4_pow12() * (two_pow175() * 4),
        a4_pow12() * (two_pow175() * 4) < pow12(top_octave(2) + 1),
{
    assert(two_pow175() * 4 == 191561942608236107294793378393788647952342390272950272int);
    assert(a4_pow12() * 191561942608236107294793378393788647952342390272950272int == 63314111665408567765585452335301523022464579697957267744875090313343555393909247582699689756866433961597833723226287647550479532032000000000000int);
    lemma_pow12_is(
        794556972624int,
        631320782745415885445376int,
        398565930726284603984839231482377915593879781376int,
        158854801135709497791287634377933215562188598457581963975197305302272130466314616807205556453376int,
        63314111664992908530956663887793756229512295504574747739961793662946595818863394929240352591622039424608792673074354054146760599063364817125376int,
    );
    lemma_pow12_is(
        794556972625int,
        631320782747004999390625int,
        398565930728291085304414266052087656621337890625int,
        158854801137308927980534315042517107923383605730137233048587508047497717499342024326324462890625int,
        63314111665949126103972302008028252703172640287337449005525971422535052418019241850268322304963929521006075116815391244017519056797027587890625int,
    );
}

/// Entry 3 of the table is the frequency of note 247, rounded down.
proof fn lemma_entry_3()
    ensures
        pow12(top_octave(3)) <= a4_pow12() * (two_pow175() * 8),
        a4_pow12() * (two_pow175() * 8) < pow12(top_octave(3) + 1),
{
    assert(two_pow175() * 8 == 383123885216472214589586756787577295904684780545900544int);
    assert(a4_pow12() * 383123885216472214589586756787577295904684780545900544int == 126628223330817135531170904670603046044929159395914535489750180626687110787818495165399379513732867923195667446452575295100959064064000000000000int);
    lemma_pow12_is(
        841803788861int,
        708633618940735067677321int,
        502161605893042914060292141112609722089777737041int,
        252166278433079751914312383053287502351057004051066424905937092417810765590012267272202943435681int,
        126628223330027521433909469232497139576665513399911945135472139966320875348231363509647929369658872447760854272824587618022808515236765914759921int,
    );
    lemma_pow12_is(
        841803788862int,
        708633618942418675255044int,
        502161605895429035921650764407856082158447441936int,
        252166278435476189485830762580628704662313631167076190235048315101958307974984501360062091428096int,
        126628223331832619842917897890577943271779066465054407518624002159563979785620204470519340810619828205580742477700287871681370540779964279033856int,
    );
}

/// Entry 4 of the table is the frequency of note 248, rounded down.
proof fn lemma_entry_4()
    ensures
        pow12(top_octave(4)) <= a4_pow12() * (two_pow175() * 16),
        a4_pow12() * (two_pow175() * 16) < pow12(top_octave(4) + 1),
{
    assert(two_pow175() * 16 == 766247770432944429179173513575154591809369561091801088int);
    assert(a4_pow12() * 766247770432944429179173513575154591809369561091801088int == 253256446661634271062341809341206092089858318791829070979500361253374221575636990330798759027465735846391334892905150590201918128128000000000000int);
    lemma_pow12_is(
        891860046990int,
        795414343417005008060100int,
        632683977713505178201561468775804065965212010000int,
        400289015655383117018404874670516063009551426324251651440081448101816387821275524248240100000000int,
        253256446659871337381182537799460315840423936536187453781954924983068597282248579199816771031151281678609596509170408199454065883601000000000000int,
    );
    lemma_pow12_is(
        891860046991int,
        795414343418788728154081int,
        632683977716342771296351881596478756021676954561int,
        400289015658973716391101674068324074307209977229978913591050647964174980263297502591039658702721int,
        253256446663278909421430320549614147493840961048944091723115338150981644651032435970721175237937677068820677988471072317555342342523831324060481int,
    );
}

/// Entry 5 of the table is the frequency of note 249, rounded down.
proof fn lemma_entry_5()
    ensures
        pow12(top_octave(5)) <= a4_pow12() * (two_pow175() * 32),
        a4_pow12() * (two_pow175() * 32) < pow12(top_octave(5) + 1),
{
    assert(two_pow175() * 32 == 1532495540865888858358347027150309183618739122183602176int);
    assert(a4_pow12() * 1532495540865888858358347027150309183618739122183602176int == 506512893323268542124683618682412184179716637583658141959000722506748443151273980661597518054931471692782669785810301180403836256256000000000000int);
    lemma_pow12_is(
        944892805120int,
        892822413167542298214400int,
        797131861454313606970762820385362941428367360000int,
        635419204545619023210854332685570949264846492257635083666098369405433692539510115113369600000000int,
        506512893323268542124683618682412184179716637583658141959000722506748443151273980661597518054931471692782669785810301180403836256256000000000000int,
    );
    lemma_pow12_is(
        944892805121int,
        892822413169432083824641int,
        797131861457688092868575723986626174394438778881int,
        635419204550998843661215580915437319505037986570549750799888277195808934650768012873134411612161int,
        506512893329701181559526902614716617683874291593543145329826332232282264032421690021024177781748017436334626746266151270544604989295211409571841int,
    );
}

/// Entry 6 of the table is the frequency of note 250, rounded down.
proof fn lemma_entry_6()
    ensures
        pow12(top_octave(6)) <= a4_pow12() * (two_pow175() * 64),
        a4_pow12() * (two_pow175() * 64) < pow12(top_octave(6) + 1),
{
    assert(two_pow175() * 64 == 3064991081731777716716694054300618367237478244367204352int);
    assert(a4_pow12() * 3064991081731777716716694054300618367237478244367204352int == 1013025786646537084249367237364824368359433275167316283918001445013496886302547961323195036109862943385565339571620602360807672512512000000000000int);
    lemma_pow12_is(
        1001079055150int,
        1002159274660016741522500int,
        1004323211787090873459690608419978575618006250000int,
        1008665113734337788383174344913331733025444323754613685385925041598729393814119225039062500000000int,
        1013025786643261433985106256216125422630304579982366976413648415783208034225518894882177805993135998133450328822846807405234619140625000000000000int,
    );
    lemma_pow12_is(
        1001079055151int,
        1002159274662018899632801int,
        1004323211791103836098842456963972644012635105601int,
        1008665113742398411436259619012676824039356403910631722871720727015554920418990003981548421571201int,
        1013025786655404640235650019620123078651739092073398650129779220373896963450402250142526556672817468130044694834829734731743536987490990975396801int,
    );
}

/// Entry 7 of the table is the frequency of note 251, rounded down.
proof fn lemma_entry_7()
    ensures
        pow12(top_octave(7)) <= a4_pow12() * (two_pow175() * 128),
        a4_pow12() * (two_pow175() * 128) < pow12(top_octave(7) + 1),
{
    assert(two_pow175() * 128 == 6129982163463555433433388108601236734474956488734408704int);
    assert(a4_pow12() * 6129982163463555433433388108601236734474956488734408704int == 2026051573293074168498734474729648736718866550334632567836002890026993772605095922646390072219725886771130679143241204721615345025024000000000000int);
    lemma_pow12_is(
        1060606313467int,
        1124885752166060265560089int,
        1265367955426203157431336843701743280840869687921int,
        1601156062619489660648516641066499948643452492982582606546239798523786453221579673824359933302241int,
        2026051573275093344467211261311244007828270795905032363818603805190589674647298294172735011374089368889252818007629846652585340373911764639930961int,
    );
    lemma_pow12_is(
        1060606313468int,
        1124885752168181478187024int,
        1265367955430975401154049187369268429517921976576int,
        1601156062631566949212947516781619666634429479804447337083472951832564197961831812028390692683776int,
        2026051573298016665374053730327453303317285629451978980853541629409912097940548696653899993011898355374614060921229758067091556691047048047230976int,
    );
}

/// Entry 8 of the table is the frequency of note 252, rounded down.
proof fn lemma_entry_8()
    ensures
        pow12(top_octave(8)) <= a4_pow12() * (two_pow175() * 256),
        a4_pow12() * (two_pow175() * 256) < pow12(top_octave(8) + 1),
{
    assert(two_pow175() * 256 == 12259964326927110866866776217202473468949912977468817408int);
    assert(a4_pow12() * 12259964326927110866866776217202473468949912977468817408int == 4052103146586148336997468949459297473437733100669265135672005780053987545210191845292780144439451773542261358286482409443230690050048000000000000int);
    lemma_pow12_is(
        1123673246763int,
        1262641565490901889978169int,
        1594263722905315486487970909573108341679296592561int,
        2541676818171916558964702551122449710375963102342134323966922460099580983778619163266985240538721int,
        4052103146560896314307005775710183327834041516594209659185131648923384333784917295231270891350059021264768484404107599316981349176893139281054481int,
    );
    lemma_pow12_is(
        1123673246764int,
        1262641565493149236471696int,
        1594263722910990672677550800721096740271009116416int,
        2541676818190012045890295696508888449118227660817398381883885539203383046389162108860581040685056int,
        4052103146604169781837753681509430301937188127784433771988539321388083806701279825568391218507364256301626414329435506189494520685858773895479296int,
    );
}

/// Entry 9 of the table is the frequency of note 253, rounded down.
proof fn lemma_entry_9()
    ensures
        pow12(top_octave(9)) <= a4_pow12() * (two_pow175() * 512),
        a4_pow12() * (two_pow175() * 512) < pow12(top_octave(9) + 1),
{
    assert(two_pow175() * 512 == 24519928653854221733733552434404946937899825954937634816int);
    assert(a4_pow12() * 24519928653854221733733552434404946937899825954937634816int == 8104206293172296673994937898918594946875466201338530271344011560107975090420383690585560288878903547084522716572964818886461380100096000000000000int);
    lemma_pow12_is(
        1190490335064int,
        1417267237880794987884096int,
        2008646423570257927459682239007248819435129737216int,
        4034660454921588021683762516027695035059984714746962974673848673565068127850530584017665215430656int,
        8104206293098597634261859499346283939421313030572117252479250692013321869229171860580504401848171532491375880197940111217814507087469373550493696int,
    );
    lemma_pow12_is(
        1190490335065int,
        1417267237883175968554225int,
        2008646423577006899255290492284343426036765350625int,
        4034660454948700617803858184093915994884145664514296209000191980579542962510959173506579187890625int,
        8104206293180287063107499258381935052361345890921438881942143197878107794782978320270722769842656407916366630195388902681647620368376582275390625int,
    );
}

/// Entry 10 of the table is the frequency of note 254, rounded down.
proof fn lemma_entry_10()
    ensures
        pow12(top_octave(10)) <= a4_pow12() * (two_pow175() * 1024),
        a4_pow12() * (two_pow175() * 1024) < pow12(top_octave(10) + 1),
{
    assert(two_pow175() * 1024 == 49039857307708443467467104868809893875799651909875269632int);
    assert(a4_pow12() * 49039857307708443467467104868809893875799651909875269632int == 16208412586344593347989875797837189893750932402677060542688023120215950180840767381171120577757807094169045433145929637772922760200192000000000000int);
    lemma_pow12_is(
        1261280574192int,
        1590828686834101216452864int,
        2530735910854310881017147275401555482370333802496int,
        6404624250487598550517510952659046627094350360209006130598045854480060658061495291415146335830016int,
        16208412586237340847476460904846088790185961207152903313560027497632692680748381332899882711699820489428214756487400774064526712423923233572519936int,
    );
    lemma_pow12_is(
        1261280574193int,
        1590828686836623777601249int,
        2530735910862336806295441702505412147956446360001int,
        6404624250528221545156801539175789128649948256830655888870075101854749149915670303853162492720001int,
        16208412586391549954486847708529849430578376933364284651995588418826482165318886934285788403058375483938087345054926851297556486206571618139080001int,
    );
}

/// Entry 11 of the table is the frequency of note 255, rounded down.
proof fn lemma_entry_11()
    ensures
        pow12(top_octave(11)) <= a4_pow12() * (two_pow175() * 2048),
        a4_pow12() * (two_pow175() * 2048) < pow12(top_octave(11) + 1),
{
    assert(two_pow175() * 2048 == 98079714615416886934934209737619787751599303819750539264int);
    assert(a4_pow12() * 98079714615416886934934209737619787751599303819750539264int == 32416825172689186695979751595674379787501864805354121085376046240431900361681534762342241155515614188338090866291859275545845520400384000000000000int);
    lemma_pow12_is(
        1336280219989int,
        1785644826333850235160121int,
        3188527445812846166256562669884360091982508734641int,
        10166707272701792645004884858575505780272183052551071705413225129653926743574142638307858953398881int,
        32416825172554734179365583705269276434651367962849212210551363731095974712845404749189749340627075799016769206226668322346687994168008157455336721int,
    );
    lemma_pow12_is(
        1336280219990int,
        1785644826336522795600100int,
        3188527445822390653701995852123706683919120010000int,
        10166707272762658365356935638841596657567519953803657370385631104666662105276835252782400100000000int,
        32416825172845842209143544567882150224443755272814630635238728269865430271981326000381467216845161798790009235532228307455580407736001000000000000int,
    );
}

/// Every entry of the top-octave table is the rounded-down frequency of
/// its note.
pub proof fn lemma_top_octave_tempered(semitone: int)
    requires
        0 <= semitone < 12,
    ensures
        is_tempered(244 + semitone, top_octave(semitone)),
{
    lemma_constants();
    lemma2_to64();
    lemma_pow2_pos(69);
    lemma_pow2_adds(175, semitone as nat);
    lemma_pow2_adds(69, (175 + semitone) as nat);
    let t = top_octave(semitone);
    let k = a4_pow12();
    let e = pow2((175 + semitone) as nat) as int;
    let p = pow2(69) as int;
    if semitone == 0 {
        lemma_entry_0();
    } else if semitone == 1 {
        lemma_entry_1();
    } else if semitone == 2 {
        lemma_entry_2();
    } else if semitone == 3 {
        lemma_entry_3();
    } else if semitone == 4 {
        lemma_entry_4();
    } else if semitone == 5 {
        lemma_entry_5();
    } else if semitone == 6 {
        lemma_entry_6();
    } else if semitone == 7 {
        lemma_entry_7();
    } else if semitone == 8 {
        lemma_entry_8();
    } else if semitone == 9 {
        lemma_entry_9();
    } else if semitone == 10 {
        lemma_entry_10();
    } else if semitone == 11 {
        lemma_entry_11();
    }
    assert(pow12(t) <= k * e && k * e < pow12(t + 1));
    assert(pow12(t) * p <= k * (p * e) && k * (p * e) < pow12(t + 1) * p) by (nonlinear_arith)
        requires
            pow12(t) <= k * e,
            k * e < pow12(t + 1),
            p > 0,
    ;
}

/// The frequency of a note is half that of the note an octave above.
pub proof fn lemma_frequency_octave(note: int)
    requires
        0 <= note,
        note + 12 <= 255,
    ensures
        frequency(note) == frequency(note + 12) / 2,
{
    let k = octaves_below_top(note + 12);
    assert(octaves_below_top(note) == k + 1);
    assert(semitone_in_top(note) == semitone_in_top(note + 12));
    let top = top_octave(semitone_in_top(note));
    lemma_pow2_pos(k as nat);
    lemma_pow2_unfold((k + 1) as nat);
    vstd::arithmetic::div_mod::lemma_div_denominator(top, pow2(k as nat) as int, 2);
}

/// The frequency of every note is that of equal temperament with A4 at
/// 440 Hz, rounded down to a multiple of 1/65536 Hz.
pub proof fn lemma_frequency_tempered(note: int)
    requires
        0 <= note <= 255,
    ensures
        is_tempered(note, frequency(note)),
    decreases 255 - note,
{
    if note >= 244 {
        lemma_top_octave_tempered(note - 244);
        assert(octaves_below_top(note) == 0);
        assert(semitone_in_top(note) == note - 244);
        lemma2_to64();
        assert(pow2(0) == 1);
        assert(frequency(note) == top_octave(note - 244) / 1);
    } else {
        lemma_frequency_tempered(note + 12);
        lemma_frequency_octave(note);
        lemma_octave_down(note, frequency(note + 12));
    }
}

/// The rounded-down frequency of a note is unique: `is_tempered` holds of
/// no other number.
pub proof fn lemma_tempered_unique(note: int, f: int, g: int)
    requires
        is_tempered(note, f),
        is_tempered(note, g),
    ensures
        f == g,
{
    lemma_pow2_pos(69);
    let p = pow2(69) as int;
    if f < g {
        lemma_pow12_increases(f + 1, g);
        assert(pow12(f + 1) * p <= pow12(g) * p) by (nonlinear_arith)
            requires
                pow12(f + 1) <= pow12(g),
                p > 0,
        ;
    } else if g < f {
        lemma_pow12_increases(g + 1, f);
        assert(pow12(g + 1) * p <= pow12(f) * p) by (nonlinear_arith)
            requires
                pow12(g + 1) <= pow12(f),
                p > 0,
        ;
    }
}

/// A4 sounds at exactly 440 Hz, and the A above and below at exactly twice
/// and half of that.
pub proof fn lemma_a_frequencies()
    ensures
        frequency(69) == 440 * 65536,
        frequency(81) == 880 * 65536,
        frequency(57) == 220 * 65536,
{
    lemma2_to64();
    assert(semitone_in_top(69) == 5 && octaves_below_top(69) == 15);
    assert(semitone_in_top(81) == 5 && octaves_below_top(81) == 14);
    assert(semitone_in_top(57) == 5 && octaves_below_top(57) == 16);
    assert(pow2(15) == 32768 && pow2(14) == 16384 && pow2(16) == 65536);
    assert(frequency(69) == 944892805120int / 32768);
    assert(frequency(81) == 944892805120int / 16384);
    assert(frequency(57) == 944892805120int / 65536);
}

} // verus!
