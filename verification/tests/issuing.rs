use std::collections::BTreeSet;

use indy_credx_issuer::cl;
use indy_credx_issuer::error::{Cause, Error, ErrorKind};
use indy_credx_issuer::identifiers::{
    CredentialDefinitionId, DidValue, RevocationRegistryId, SchemaId,
};
use indy_credx_issuer::issuer::{
    check_index_signing, check_move, check_signing, create_credential, create_credential_checked,
    create_credential_definition, create_credential_offer, create_credential_with_fetched_key,
    create_revocation_registry, create_revocation_registry_checked, credential_definition_from_keys,
    credential_from_signing, credential_offer_from_parts, index_texts_allow,
    make_credential_definition_id,
    make_revocation_registry_id, merge_revocation_registry_deltas,
    merge_revocation_registry_deltas_checked, names_are_answered, revocable_credential_from_signing,
    revoke_credential, revoke_credential_checked, revoke_credential_with_key, unrevoke_credential,
    unrevoke_credential_checked, unrevoke_credential_with_key, update_revocation_registry,
    update_revocation_registry_checked, update_revocation_registry_with_key, IndexTexts,
};
use indy_credx_issuer::qualified::get_method;
use indy_credx_issuer::tails::TailsWriter;
use indy_credx_issuer::types::{
    AttributeNames, AttributeValues, Credential, CredentialDefinition, CredentialDefinitionConfig,
    CredentialDefinitionData, CredentialDefinitionPrivate, CredentialDefinitionV1,
    CredentialKeyCorrectnessProof, CredentialOffer, CredentialRequest, CredentialRevocationConfig,
    CredentialValues, IssuanceType, RegistryType, RevocationRegistry, RevocationRegistryDefinition,
    RevocationRegistryDefinitionPrivate, RevocationRegistryDefinitionV1, RevocationRegistryDelta,
    RevocationRegistryV1, Schema, SchemaV1, SignatureType,
};
use indy_data_types::anoncreds_clsignatures::{
    CredentialSecretsBlindingFactors, CredentialValues as SignedValues, Prover,
};

const PRIMARY_KEY: &str = r#"{"n": "97759243037584905475759031285687481526682980378485805322836601695523323795783360758373302068022340438144260881471947602176455586937981259677043548791999109648296174273478560788309521363636530397912766272865399697255732817577277920814618478501658470763261263481884676603447569204964645509549230753919029312443159670117311672282542159324109528558167904180157060827424974789616612447417149554967683862614965370708783670343197420009533093868075356814414825976381332287575302982548015954078851835419930170678631436954784177194966259746768016991096084694473538730294363242583864853775574178872006148305847575167695257447773", "s": "21776376592274679371689799030079085312051574992961722927009639996987475353996443835005173107832775990869009336327238503170881191994432006015212032841637680434543156174313893820353373252035892579305653947541585359384327847475410415016431890630746420522309600510291349365515722702025418921172938767221457239170209659099845312149087785411439589602066541043235679977262703755474171462622463820016126831710692850837722575030763409518413900232724379212316686419725899086486277445051559517948685502640096519501476907831798027367886642477004142733742445333458277869264615472093824024737975750072900592045563887412129016133889", "rctxt": "22367649113891905664593367589756927154620026002870686791425116899113166102463385255777947612590272326902876607965930393299017708388456014672833098517510402725906562714517383519224241769370097436360213271801024664973101516459676759121006263327545857171301256844849290876113986609209526369774492299815377779730250971480247123999361231894462657785201833140206882164481738440445907028661962175780038926095996356731476561447556285865588500666880748440388241988576483428813710093676464103155200711556185738545216528962065908814210434956734336781475483267248489836659903340870985489551641891702996597499832133432061498821350", "z": "20971049306556516416548411855462653126934915528788169742105904685171526036021814020308366595378985697473160298612279628754632434933759095053014742445453246869014501318132129164954281672366894792411718693685773560773966579052996993259737028689495198784560422879504530423473348349585086897461177376910543665826129373202987768115430007889968052288637875214108680986123834214768628273585410552488075439001161273207000954506399869209972102566538554006252214727260705838993631349254893430895487478655362331032373744785458381443406082435300178682616238581378757588795672662888045672364001684986862571709608524646032002755410", "r": {"master_secret": "23600278367881514644719111745132596572924159303153307139633714118405395795423872748236244253841972896291868344238267920572448641265269524542914037755596281712335163938428945658216123512764074907185309887337640204219305153824812035618490287116229003440283175095066796405694857291764977397276381047372374819390263373711696748797018131425783674132870776764229657206936076889526045661367508574201690948355102350559010472297465242111105422314336857402907297647065431655510793365838328472647947739742691547798197166325138761863258939799970466366588510334716568673188155525513263380006012778618903312304454922018074803231854", "sex": "45905420009559506676740152645444004432612926812657234203412778546798509832343930138915645502822592997484626739565937924668836135365146235452603357524920946327729842942996858261205071441906249430830929567609951185447665489982582635834022220849454430490166326338081626809854393481789706446454118448670097773698201533116892424493609827067463688036753710752724533028826181216927715655069099001392715427558245700568323615092421503874377929485249941421537028075243874101523793585428573758998843322013892289962647546691990476845851331740934058181529683978648507397291954190962244181382070900008154042314677569973820640776324", "height": "94333959363004054149954701059326281900513593795765037129430512246844371745516828451428701462299943198477105935275703530916994611221655433181288770512003503259582615024945087881420522591146407207808843169552140080927132880761627430352173324750815198666656326457453782222064276842754790048981731781729230479618597274949859131995229088916414193262192514931361113034288254109737988182443184073213712191553252100225841706342337235232978666539871324982157220788383014234038954095051659809371044131965710184206761214567960637557363959436775713672978576754096054593982093280224260907034627603504454548602427458662488538122893", "name": "13746366475344903846235474634926975241638918842587208382474235803812382305623738390202472416699325318710947819471164393404046657300160431130777599949512363752279699255532766520676602087778932782551551642268680361953142547995705477252031470648760627839338781192638465660242814096792628497668532134733520862819774512844702280755228385177181826134770719398139614496818334553102303655058827333112597721389083677752174761548691146932367625405463552093310281918337645732306726411640995921029049534049899620621850218350850451959460695298206326084935111318539929976208421235801491574788159148374603817580856237304789833819817", "age": "44108535381364140131192122046992150469063899682787071607923270100474406377346334974921271624609604831057319489303147005216748460433766803723946485961496483599061727462446986564337374445433414116404827930271068989186385194213881804968176421601520426938491670159716567463535602365065230923357872520681039811481068030299506899426808944428227249939916740748207937959710920879937436340264212378347807979058089055923797182684599605684112141625998891722166185124853517139266700090781771486877208441006637397349202467436687288873815866066132525168536149657142924597017827004345607609366329623658946277598385003944321738600454"}}"#;

const REVOCATION_KEY: &str = r#"{"g": "1 03D433008A42E55FE3C6C4772D290EB3B0BF999F8281B4329E55033A32663625 1 0BDFD038889932B7C5CDD0BB846713710FBAB698201DFD4A380CDD1282E75060 1 095E45DDF417D05FB10933FFC63D474548B7FFFF7888802F07FFFFFF7D07A8A8", "g_dash": "1 1045C93522D11FB9EB69396032EEA008B857C7F8B3F2981C9917B1DFA8A00EC9 1 01AD44557A4240BB570FB94B33746C272CF921F33B4910B111F1CA48FCE34FC2 1 2265EAFAED9C22CD76C2FBD6FC3B88414B6B66FB4E31FCD1ED6AADE25A9D31EB 1 234B062F5159CB2E0782CFB75478E45D46EBF0F21E3CE7A2CD758687A73D5D08 1 095E45DDF417D05FB10933FFC63D474548B7FFFF7888802F07FFFFFF7D07A8A8 1 0000000000000000000000000000000000000000000000000000000000000000", "h": "1 00779206BDAB2E3F9CC3AEFC491606554D9DB1E635EE2622CB88667175CA0389 1 0BE9C24F028E14C25D779831200252C6A3810DD441563A3ED044828A0EA1F5BF 1 095E45DDF417D05FB10933FFC63D474548B7FFFF7888802F07FFFFFF7D07A8A8", "h0": "1 124B7A0EC17EAAB267EAD5B14BA9817F95D6ADBD2901D358B4933C17D09C6071 1 10B385CDBD3AE37E2B15A2BABE9B6A65CAF7B0266FFBCAB39DA8E89930CFE1F5 1 095E45DDF417D05FB10933FFC63D474548B7FFFF7888802F07FFFFFF7D07A8A8", "h1": "1 18FAE93FC4CB59CAF8EB9089BD2E3557A846B36ABF07423D38CF1F33AF40A4DA 1 135F13A5EE3A671FBB8686F5ED75208A7B21E60B5B17E130B0CD5759EEF41979 1 095E45DDF417D05FB10933FFC63D474548B7FFFF7888802F07FFFFFF7D07A8A8", "h2": "1 14E2B023E16BD5EFAB21C3B4E0F8DD9EDC0BAE8C7D54E53B788D5CC56428EF89 1 2455046265245AC7B96963FAF88388B80931A3A4A1789C999700E6F285C41285 1 095E45DDF417D05FB10933FFC63D474548B7FFFF7888802F07FFFFFF7D07A8A8", "htilde": "1 0C5D3DF7856F0C6A46ECFE1699691DC7A6BDBCB577EB811C3D582BEE15E40F43 1 072448B835886119629FD29ED7662FAAF0A46072DE824F624F1A7B137A4377D6 1 095E45DDF417D05FB10933FFC63D474548B7FFFF7888802F07FFFFFF7D07A8A8", "h_cap": "1 203CCE35A8D290493AF0EF4EAA52D70709E6E9D25F8B626B21B0E98941A9942D 1 2140127125274C73B172182F03F045DE38C0075111F6521C6D8AB16715394CDD 1 187548EFF78D6B382E10B857405FC959B7E60638D868DF52690FADD253156E41 1 0C4214C598DBD81107B849F8384584685EAEAC89006077D6936AD20973A751D5 1 095E45DDF417D05FB10933FFC63D474548B7FFFF7888802F07FFFFFF7D07A8A8 1 0000000000000000000000000000000000000000000000000000000000000000", "u": "1 052DA02C48E7D4EF773EA47DF30FEB879D28ED3EA259B657A9713D09F33637FB 1 076DB5DC50643AC85A5867CC0BBEA8D1B0C0181902F7ED9E356F2E46F37F2493 1 0B0E88CB9F09987275EC5AF187269BA763B98A7C7C4BDFE2F419546BDCD9526E 1 07E87398A50B8318C0A2C9F446C9831AEFA86C04234675F796CE9EDEBF811C03 1 095E45DDF417D05FB10933FFC63D474548B7FFFF7888802F07FFFFFF7D07A8A8 1 0000000000000000000000000000000000000000000000000000000000000000", "pk": "1 03D433008A42E55FE3C6C4772D290EB3B0BF999F8281B4329E55033A32663625 1 0BDFD038889932B7C5CDD0BB846713710FBAB698201DFD4A380CDD1282E75060 1 095E45DDF417D05FB10933FFC63D474548B7FFFF7888802F07FFFFFF7D07A8A8", "y": "1 203CCE35A8D290493AF0EF4EAA52D70709E6E9D25F8B626B21B0E98941A9942D 1 2140127125274C73B172182F03F045DE38C0075111F6521C6D8AB16715394CDD 1 187548EFF78D6B382E10B857405FC959B7E60638D868DF52690FADD253156E41 1 0C4214C598DBD81107B849F8384584685EAEAC89006077D6936AD20973A751D5 1 095E45DDF417D05FB10933FFC63D474548B7FFFF7888802F07FFFFFF7D07A8A8 1 0000000000000000000000000000000000000000000000000000000000000000"}"#;

const PRIVATE_KEY: &str = r#"{"p_key": {"p": "169845733102667062210342112708057488332400846991988819482622071464563407684286029364544056032399908806989143469822907614182812726893706640519192922325767574462417254709488881240958364903205880453689282784391012534277856937610157314926594763180026296287510919029189603351546563449549863794481205866523163656879", "q": "143894169803035526868761418418687119944603466542048930131478387366967355559326115035770099001659301012917581110631485500435905126763987424191457539762604468450225523596814181681836092349922056724418114385810270608527339618291065218267346637587442046323037450461842605033682206109969445105772972591610884101473"}, "r_key": {"x": "0000000000000000000000000000000000000000000000000000000000000001", "sk": "0000000000000000000000000000000000000000000000000000000000000001"}}"#;

const KEY_PROOF: &str = r#"{"c": "27717265955642642392454936822829767000602626651883676425118358668211358050535", "xz_cap": "195183479411907840658865915718157252237599938555394187408669121242924229132604040216390134337550212483799639196124826353222953939803061169821920958455818253778030212467671594260774764331010150260306656204325735897119762790715520638514456987237041497335709304782811439581187400310034566087112679977409467931731740129174679768900999402724832840167050442285166116299344094727078803267248636201545845447452247449737711167611456752229449370365693922190523326037552189437231619118503667530217877672864715336009967086498314974492784160236397875467031883372538578437567133611850400790701531183895323002264918404700860035214642442774396620020443957931798520229921748578156172389005189158388482249519636", "xr_cap": [["master_secret", "108994136026733300640378424935694745675064503896066529713139585837463421815059950098507298107246300653105997383204451606837296767784814604942340833368106757835366629461939259072058086534840174639920640847444403054824747351884307793557870628615807197597130835965610488749997528825184477589323420376522176291147028713002672496406829921761560934126449181642701524435791232857719005802629716780805908885704874983403784593762097512364685411820243225448982937539508718570130858653417478893497702134462904550495445542331335644514295413713806160318827234198270067137570459810376875605314610270934169075372132654993352881948277195879123027497031120364376272763189445156428620272564477681019614118490740"], ["sex", "128494421725086382375233821524115416815586197851442190392417092246480099785051174054522674957382143675737963720062305616928519648742934501661363289432964725251152855168164590269677142633896467309863116251341535636218212935400896530214258131292675985463052323914410465528933082897230975501988313561612789410955586295425259898672074625500011698883324917613186367885403600868991760209666288187071717845914977105311234889269772016268840277180935437440183879308910953708209604662700140948902172133494597178436053168796694560243365149173356104393562015159498718425442018744537931047419764114929814565539131131657928963434450945907332728752733520479793552386165851653893976758325941757673920571315401"], ["height", "325748045045647524548077382276847895755076674490322664132332956363045987787901163969206315872897454301662114071388144994966775245975603265305660946818623306357224076636344785815978373138995216222564932708400807619786734827754233733824335077506939368237535692682624529305593741647314520149930826112187999212085720462996433231318176163742242840822705280803567526905192073820619944296743321168230950632918599705990474668702361577448434219382921450637779526236936005339118262470606084420184560736544064417269840848196585675030589388236426022432139584570728489024352483534307978598783294742079505240218467306489892141868638148224503108337301981668280873577606044397225467443257713350802818685882283"], ["name", "253486579801916931487546562670781248553741695003599476865583980588124606757865737448325852053029692120780293391918493356221728459494312852793463647520238291073655866088421310368038022138242832515996042314286616967884755263322237222420713822312789653819487519503320154730553582540196911624941187123733257217108517466238816701318740990786583879510974346920221367074534940885785991592688437934112362785593096203907756999872909527671772234557591044030096506799653955626862788713368168122476105201481933138534149388851563054522725269594989033530326035099481884944901558253300174923391962581489779172086993395000813147242497227279505873907008312624439779939547026110882261520782543286131848078199470"], ["age", "167036904630660840715382000711577962010634488820831747593373621059125367511352671841761327712538986237526797036371499808014739961349448942974154463439554875421141108261859793168878317966267762075601283924810714392952556789475513355994685737803169674207049389812772070758284567806383221945528719784218187316323784883356762001587552357389243876466467979982411498706501602171333537128112479137187703197211374419535348541143914758157265197166710306381586574677469030116733453258986074614371112312920269393969476951802514715110996174745367997328658265576034251369533834237535463741496591687376181339739504803526537311904186350596102266665204465981828194901557854754923068248902775178894883571172658"]]}"#;

const DID: &str = "NcYxiDXkpYi6ov5FcYDi1e";
const QUALIFIED_DID: &str = "did:sov:NcYxiDXkpYi6ov5FcYDi1e";
const PROVER_DID: &str = "VsKV7grR1BUE29mG2Fm2kX";

fn did(text: &str) -> DidValue {
    DidValue(text.to_string())
}

fn cred_def_with_id(id: &str, revocation: bool) -> CredentialDefinition {
    CredentialDefinition::CredentialDefinitionV1(CredentialDefinitionV1 {
        id: CredentialDefinitionId(id.to_string()),
        schema_id: SchemaId("1".to_string()),
        signature_type: SignatureType::CL,
        tag: "tag".to_string(),
        value: CredentialDefinitionData {
            primary: serde_json::from_str(PRIMARY_KEY).unwrap(),
            revocation: if revocation {
                Some(serde_json::from_str(REVOCATION_KEY).unwrap())
            } else {
                None
            },
        },
    })
}

fn cred_def(revocation: bool) -> CredentialDefinition {
    cred_def_with_id("NcYxiDXkpYi6ov5FcYDi1e:3:CL:1:tag", revocation)
}

fn public_key(cred_def: &CredentialDefinition) -> cl::CredentialPublicKey {
    let CredentialDefinition::CredentialDefinitionV1(v1) = cred_def;
    v1.get_public_key().unwrap()
}

fn cred_def_private() -> CredentialDefinitionPrivate {
    CredentialDefinitionPrivate { value: serde_json::from_str(PRIVATE_KEY).unwrap() }
}

fn key_proof() -> CredentialKeyCorrectnessProof {
    CredentialKeyCorrectnessProof { value: serde_json::from_str(KEY_PROOF).unwrap() }
}

fn offer(cred_def: &CredentialDefinition) -> CredentialOffer {
    let schema_id = SchemaId("NcYxiDXkpYi6ov5FcYDi1e:2:gvt:1.0".to_string());
    create_credential_offer(&schema_id, cred_def, &key_proof()).unwrap()
}

fn values_with(entries: &[(&str, &str)]) -> CredentialValues {
    let mut values = CredentialValues::new();
    for (name, number) in entries {
        let value = AttributeValues { raw: number.to_string(), encoded: number.to_string() };
        values.insert(name.to_string(), value);
    }
    values
}

fn values() -> CredentialValues {
    values_with(&[("Name", "1139481716457488690172217916278103335"), ("age", "28"),
        ("he ight", "175"), ("SEX", "5944657099558967239210949258394887428692050081607692519")])
}

/// A request for an offer, and what its holder keeps: the values with the link secret, and
/// the blinding factors.
fn request(
    cred_def: &CredentialDefinition,
    offer: &CredentialOffer,
) -> (CredentialRequest, SignedValues, CredentialSecretsBlindingFactors) {
    let link_secret = Prover::new_link_secret().unwrap();
    let mut builder = Prover::new_credential_values_builder().unwrap();
    builder.add_value_hidden("master_secret", link_secret.as_ref()).unwrap();
    let hidden = builder.finalize().unwrap();
    let (blinded_ms, factors, blinded_ms_correctness_proof) = Prover::blind_credential_secrets(
        &public_key(cred_def),
        &offer.key_correctness_proof,
        &hidden,
        offer.nonce.as_native(),
    )
    .unwrap();
    let mut builder = Prover::new_credential_values_builder().unwrap();
    builder.add_value_hidden("master_secret", link_secret.as_ref()).unwrap();
    builder.add_dec_known("name", "1139481716457488690172217916278103335").unwrap();
    builder.add_dec_known("age", "28").unwrap();
    builder.add_dec_known("height", "175").unwrap();
    builder
        .add_dec_known("sex", "5944657099558967239210949258394887428692050081607692519")
        .unwrap();
    let request = CredentialRequest {
        prover_did: did(PROVER_DID),
        cred_def_id: offer.cred_def_id.clone(),
        blinded_ms,
        blinded_ms_correctness_proof,
        nonce: cl::Nonce::new().unwrap(),
    };
    (request, builder.finalize().unwrap(), factors)
}

/// Counts the tails it is given, or fails.
struct CountingWriter {
    fails: bool,
    written: Vec<u32>,
}

impl TailsWriter for CountingWriter {
    fn write(
        &mut self,
        generator: &mut cl::RevocationTailsGenerator,
    ) -> Result<(String, String), Error> {
        if self.fails {
            return Err(Error::Tails("no space".to_string()));
        }
        self.written.push(generator.count());
        Ok(("location".to_string(), "hash".to_string()))
    }
}

struct Registry {
    definition: RevocationRegistryDefinition,
    private: RevocationRegistryDefinitionPrivate,
    registry: RevocationRegistry,
    delta: RevocationRegistryDelta,
}

fn new_registry(cred_def: &CredentialDefinition, issuance_type: IssuanceType) -> Registry {
    let mut writer = CountingWriter { fails: false, written: vec![] };
    let (definition, private, registry, delta) = create_revocation_registry(
        &did(DID),
        cred_def,
        "reg",
        RegistryType::CL_ACCUM,
        issuance_type,
        5,
        &mut writer,
    )
    .unwrap();
    Registry { definition, private, registry, delta }
}

fn registry_value(registry: &RevocationRegistry) -> &cl::ClRevocationRegistry {
    let RevocationRegistry::RevocationRegistryV1(v1) = registry;
    &v1.value
}

fn definition_value(definition: &RevocationRegistryDefinition) -> &RevocationRegistryDefinitionV1 {
    let RevocationRegistryDefinition::RevocationRegistryDefinitionV1(v1) = definition;
    v1
}

fn delta_value(delta: &RevocationRegistryDelta) -> &cl::ClRevocationRegistryDelta {
    let RevocationRegistryDelta::RevocationRegistryDeltaV1(v1) = delta;
    &v1.value
}

/// The indexes that a delta issues and revokes, and whether it starts from a state.
fn told(delta: &RevocationRegistryDelta) -> (Vec<u64>, Vec<u64>, bool) {
    let json = serde_json::to_value(delta_value(delta)).unwrap();
    let list = |name: &str| {
        let mut list: Vec<u64> = match json.get(name) {
            Some(items) => {
                items.as_array().unwrap().iter().map(|item| item.as_u64().unwrap()).collect()
            }
            None => vec![],
        };
        list.sort();
        list
    };
    (list("issued"), list("revoked"), json.get("prevAccum").is_some())
}

fn indexes(list: &[u32]) -> BTreeSet<u32> {
    list.iter().copied().collect()
}

fn refused_with(err: Error) -> &'static str {
    match err {
        Error::Failure { kind: ErrorKind::Input, message: Some(message), cause: None } => message,
        other => panic!("{:?}", other),
    }
}

fn is_signature_error<T>(res: Result<T, Error>) -> bool {
    matches!(res, Err(Error::Signature(_)))
}

fn json_of(credential: &Credential) -> (serde_json::Value, serde_json::Value) {
    (
        serde_json::to_value(&credential.signature).unwrap(),
        serde_json::to_value(&credential.signature_correctness_proof).unwrap(),
    )
}

// ---- credential definitions ----

fn schema(id: &str, attrs: &[&str], seq_no: Option<u32>) -> Schema {
    let mut attr_names = AttributeNames::new();
    for attr in attrs {
        attr_names.insert(attr.to_string());
    }
    Schema::SchemaV1(SchemaV1 {
        id: SchemaId(id.to_string()),
        name: "gvt".to_string(),
        version: "1.0".to_string(),
        attr_names,
        seq_no,
    })
}

#[test]
fn definition_for_a_foreign_schema_is_refused() {
    let schema = schema("schema:sov:did:sov:abc:2:gvt:1.0", &["name"], Some(3));
    let config = CredentialDefinitionConfig { support_revocation: false };
    let res = create_credential_definition(&did(DID), &schema, "tag", SignatureType::CL, config);
    assert_eq!(
        refused_with(res.unwrap_err()),
        "Cannot use an unqualified Origin DID with fully qualified Schema ID",
    );
}

#[test]
fn definition_for_no_attributes_is_refused() {
    let schema = schema("NcYxiDXkpYi6ov5FcYDi1e:2:gvt:1.0", &[], None);
    let config = CredentialDefinitionConfig { support_revocation: true };
    let res = create_credential_definition(&did(DID), &schema, "tag", SignatureType::CL, config);
    assert!(is_signature_error(res));
}

#[test]
fn definition_with_fresh_keys() {
    let schema =
        schema("NcYxiDXkpYi6ov5FcYDi1e:2:gvt:1.0", &["First Name", "age", "AGE"], Some(15));
    let config = CredentialDefinitionConfig { support_revocation: true };
    let (made, made_private, made_proof) =
        create_credential_definition(&did(DID), &schema, "tag", SignatureType::CL, config).unwrap();
    assert!(made.check_bounds());
    let CredentialDefinition::CredentialDefinitionV1(v1) = &made;
    assert_eq!(v1.id.0, "NcYxiDXkpYi6ov5FcYDi1e:3:CL:15:tag");
    assert_eq!(v1.schema_id.0, "15");
    assert_eq!(v1.signature_type, SignatureType::CL);
    assert_eq!(v1.tag, "tag");
    assert!(v1.value.revocation.is_some());
    let json = serde_json::to_value(&v1.value.primary).unwrap();
    let attrs: Vec<&String> = json["r"].as_object().unwrap().keys().collect();
    assert_eq!(attrs, vec!["age", "firstname", "master_secret"]);

    let schema_id = SchemaId("NcYxiDXkpYi6ov5FcYDi1e:2:gvt:1.0".to_string());
    let offer = create_credential_offer(&schema_id, &made, &made_proof).unwrap();
    assert_eq!(offer.key_correctness_proof, made_proof.value);
    let (request, _, _) = request(&made, &offer);

    let registry = new_registry(&made, IssuanceType::ISSUANCE_BY_DEFAULT);
    let config = CredentialRevocationConfig {
        reg_def: &registry.definition,
        reg_def_private: &registry.private,
        registry: &registry.registry,
        registry_idx: 1,
    };
    assert!(check_index_signing(&made, &made_private, &request, &config).unwrap());
    let (def, private, first) = (&registry.definition, &registry.private, &registry.registry);
    let (revoked, _) = revoke_credential(&made, def, private, first, 2).unwrap();
    let (restored, _) = unrevoke_credential(&made, def, private, &revoked, 2).unwrap();
    assert_ne!(registry_value(&revoked), registry_value(first));
    assert_eq!(registry_value(&restored), registry_value(first));
}

#[test]
fn definition_from_given_keys() {
    for (seq_no, schema_id, revocation) in
        [(Some(42), "42", true), (None, "NcYxiDXkpYi6ov5FcYDi1e:2:gvt:1.0", false)]
    {
        let key = public_key(&cred_def(revocation));
        let (made, private, made_proof) = credential_definition_from_keys(
            CredentialDefinitionId("id".to_string()),
            &schema("NcYxiDXkpYi6ov5FcYDi1e:2:gvt:1.0", &["name"], seq_no),
            "tag",
            SignatureType::CL,
            key.get_primary_key().try_clone().unwrap(),
            key.get_revocation_key().cloned(),
            cred_def_private().value,
            key_proof().value,
        );
        let CredentialDefinition::CredentialDefinitionV1(v1) = &made;
        assert_eq!(v1.id.0, "id");
        assert_eq!(v1.schema_id.0, schema_id);
        assert_eq!(v1.signature_type, SignatureType::CL);
        assert_eq!(v1.tag, "tag");
        assert_eq!(&v1.value.primary, key.get_primary_key());
        assert_eq!(v1.value.revocation.as_ref(), key.get_revocation_key());
        assert_eq!(v1.value.revocation.is_some(), revocation);
        assert_eq!(made_proof.value, key_proof().value);
        assert_eq!(
            serde_json::to_value(&private.value).unwrap(),
            serde_json::to_value(cred_def_private().value).unwrap(),
        );
        assert_eq!(public_key(&made), key);
    }
}

// ---- revocation registries ----

#[test]
fn registry_id_of_a_plain_did() {
    let cred_def = cred_def_with_id("NcYxiDXkpYi6ov5FcYDi1e:3:CL:1:tag", false);
    let id = make_revocation_registry_id(&did(DID), &cred_def, "reg", RegistryType::CL_ACCUM);
    assert_eq!(
        id.unwrap().0,
        "NcYxiDXkpYi6ov5FcYDi1e:4:NcYxiDXkpYi6ov5FcYDi1e:3:CL:1:tag:CL_ACCUM:reg",
    );
}

#[test]
fn registry_id_of_a_qualified_did() {
    let cred_def = cred_def_with_id("creddef:sov:did:sov:abc:3:CL:1:tag", false);
    let id =
        make_revocation_registry_id(&did(QUALIFIED_DID), &cred_def, "reg", RegistryType::CL_ACCUM);
    let id = id.unwrap();
    assert_eq!(
        id.0,
        "revreg:sov:did:sov:NcYxiDXkpYi6ov5FcYDi1e:4:\
         creddef:sov:did:sov:abc:3:CL:1:tag:CL_ACCUM:reg",
    );
    assert_eq!(get_method("revreg", &id.0), Some("sov"));
}

#[test]
fn own_definition_is_accepted() {
    for text in [DID, QUALIFIED_DID] {
        let schema_id = SchemaId("NcYxiDXkpYi6ov5FcYDi1e:2:gvt:1.0".to_string());
        let id = make_credential_definition_id(
            &did(text),
            &schema_id,
            None,
            "tag",
            SignatureType::CL,
        )
        .unwrap();
        let cred_def = cred_def_with_id(&id.0, false);
        let res = make_revocation_registry_id(&did(text), &cred_def, "", RegistryType::CL_ACCUM);
        assert!(res.is_ok());
    }
}

#[test]
fn registry_ids_of_two_tags_differ() {
    let cred_def = cred_def(false);
    let id = |tag: &str| {
        make_revocation_registry_id(&did(DID), &cred_def, tag, RegistryType::CL_ACCUM).unwrap()
    };
    assert_ne!(id("a"), id("b"));
    assert_ne!(id(""), id("b"));
}

#[test]
fn plain_did_with_a_qualified_definition_is_refused() {
    let cred_def = cred_def_with_id("creddef:sov:did:sov:abc:3:CL:1:tag", true);
    let res = make_revocation_registry_id(&did(DID), &cred_def, "reg", RegistryType::CL_ACCUM);
    assert_eq!(
        refused_with(res.unwrap_err()),
        "Cannot use an unqualified Origin DID with a fully qualified Credential Definition ID",
    );
}

#[test]
fn qualified_did_with_a_plain_definition_is_refused() {
    let cred_def = cred_def(true);
    let mut writer = CountingWriter { fails: false, written: vec![] };
    let res = create_revocation_registry(
        &did(QUALIFIED_DID),
        &cred_def,
        "reg",
        RegistryType::CL_ACCUM,
        IssuanceType::ISSUANCE_ON_DEMAND,
        5,
        &mut writer,
    );
    assert_eq!(
        refused_with(res.unwrap_err()),
        "Cannot use a fully qualified Origin DID with an unqualified Credential Definition ID",
    );
    assert!(writer.written.is_empty());
}

#[test]
fn new_registry_is_described() {
    let cred_def = cred_def(true);
    let mut writer = CountingWriter { fails: false, written: vec![] };
    let (definition, private, registry, delta) = create_revocation_registry(
        &did(DID),
        &cred_def,
        "reg",
        RegistryType::CL_ACCUM,
        IssuanceType::ISSUANCE_BY_DEFAULT,
        5,
        &mut writer,
    )
    .unwrap();
    let v1 = definition_value(&definition);
    assert_eq!(
        v1.id.0,
        "NcYxiDXkpYi6ov5FcYDi1e:4:NcYxiDXkpYi6ov5FcYDi1e:3:CL:1:tag:CL_ACCUM:reg",
    );
    assert_eq!(v1.revoc_def_type, RegistryType::CL_ACCUM);
    assert_eq!(v1.tag, "reg");
    assert_eq!(v1.cred_def_id.0, "NcYxiDXkpYi6ov5FcYDi1e:3:CL:1:tag");
    assert_eq!(v1.value.max_cred_num, 5);
    assert_eq!(v1.value.issuance_type, IssuanceType::ISSUANCE_BY_DEFAULT);
    assert_eq!(v1.value.tails_location, "location");
    assert_eq!(v1.value.tails_hash, "hash");
    assert_eq!(writer.written, vec![11]);
    assert_eq!(told(&delta), (vec![], vec![], false));
    let first = cl::ClRevocationRegistry::initial_state(
        &public_key(&cred_def),
        &private.value,
        5,
        true,
    )
    .unwrap();
    assert_eq!(registry_value(&registry), &first);
}

#[test]
fn registry_whose_tails_are_not_kept() {
    let mut writer = CountingWriter { fails: true, written: vec![] };
    let res = create_revocation_registry(
        &did(DID),
        &cred_def(true),
        "reg",
        RegistryType::CL_ACCUM,
        IssuanceType::ISSUANCE_ON_DEMAND,
        5,
        &mut writer,
    );
    match res {
        Err(Error::Tails(message)) => assert_eq!(message, "no space"),
        _ => panic!("the tails were kept"),
    }
}

#[test]
fn registry_of_a_definition_without_revocation() {
    let mut writer = CountingWriter { fails: false, written: vec![] };
    let res = create_revocation_registry(
        &did(DID),
        &cred_def(false),
        "reg",
        RegistryType::CL_ACCUM,
        IssuanceType::ISSUANCE_ON_DEMAND,
        u32::MAX,
        &mut writer,
    );
    assert!(is_signature_error(res));
    assert!(writer.written.is_empty());
}

#[test]
fn update_moves_the_registry() {
    let cred_def = cred_def(true);
    let made = new_registry(&cred_def, IssuanceType::ISSUANCE_ON_DEMAND);
    let (registry, delta) = update_revocation_registry(
        &cred_def,
        &made.definition,
        &made.private,
        &made.registry,
        indexes(&[1, 3]),
        indexes(&[]),
    )
    .unwrap();
    assert_eq!(told(&delta), (vec![1, 3], vec![], true));
    let issued = cl::ClRevocationRegistry::for_issued(
        &public_key(&cred_def),
        &made.private.value,
        5,
        &indexes(&[3, 5]),
    )
    .unwrap();
    assert_eq!(registry_value(&registry), &issued);
    assert_ne!(registry_value(&registry), registry_value(&made.registry));
}

#[test]
fn update_with_no_index_changes_nothing() {
    let cred_def = cred_def(true);
    let made = new_registry(&cred_def, IssuanceType::ISSUANCE_BY_DEFAULT);
    let (registry, delta) = update_revocation_registry(
        &cred_def,
        &made.definition,
        &made.private,
        &made.registry,
        indexes(&[]),
        indexes(&[]),
    )
    .unwrap();
    assert_eq!(registry_value(&registry), registry_value(&made.registry));
    assert_eq!(told(&delta), (vec![], vec![], true));
}

#[test]
fn revoking_is_an_update_with_one_index() {
    let cred_def = cred_def(true);
    let made = new_registry(&cred_def, IssuanceType::ISSUANCE_BY_DEFAULT);
    let revoked =
        revoke_credential(&cred_def, &made.definition, &made.private, &made.registry, 2).unwrap();
    let updated = update_revocation_registry(
        &cred_def,
        &made.definition,
        &made.private,
        &made.registry,
        indexes(&[]),
        indexes(&[2]),
    )
    .unwrap();
    assert_eq!(registry_value(&revoked.0), registry_value(&updated.0));
    assert_eq!(delta_value(&revoked.1), delta_value(&updated.1));
    assert_eq!(told(&revoked.1), (vec![], vec![2], true));

    let issued =
        unrevoke_credential(&cred_def, &made.definition, &made.private, &made.registry, 2).unwrap();
    assert_eq!(told(&issued.1), (vec![2], vec![], true));
    assert_ne!(registry_value(&revoked.0), registry_value(&issued.0));
}

#[test]
fn issuing_again_undoes_revoking() {
    let cred_def = cred_def(true);
    let made = new_registry(&cred_def, IssuanceType::ISSUANCE_BY_DEFAULT);
    let (revoked, first) =
        revoke_credential(&cred_def, &made.definition, &made.private, &made.registry, 4).unwrap();
    assert_ne!(registry_value(&revoked), registry_value(&made.registry));
    let (restored, second) =
        unrevoke_credential(&cred_def, &made.definition, &made.private, &revoked, 4).unwrap();
    assert_eq!(registry_value(&restored), registry_value(&made.registry));
    let merged = merge_revocation_registry_deltas(&first, &second).unwrap();
    assert_eq!(told(&merged), (vec![], vec![], true));
}

#[test]
fn registry_steps_with_a_given_key() {
    let with = cred_def(true);
    let made = new_registry(&with, IssuanceType::ISSUANCE_BY_DEFAULT);
    let key = public_key(&with);
    let (revoked, _) =
        revoke_credential_with_key(&key, &made.definition, &made.private, &made.registry, 1)
            .unwrap();
    let (restored, _) =
        unrevoke_credential_with_key(&key, &made.definition, &made.private, &revoked, 1).unwrap();
    assert_eq!(registry_value(&restored), registry_value(&made.registry));
    let updated = update_revocation_registry_with_key(
        &key,
        &made.definition,
        &made.private,
        &made.registry,
        indexes(&[]),
        indexes(&[1]),
    );
    assert_eq!(registry_value(&updated.unwrap().0), registry_value(&revoked));
}

#[test]
fn steps_need_a_definition_with_revocation() {
    let with = cred_def(true);
    let made = new_registry(&with, IssuanceType::ISSUANCE_BY_DEFAULT);
    let without = cred_def(false);
    let (def, private, registry) = (&made.definition, &made.private, &made.registry);
    assert!(is_signature_error(revoke_credential(&without, def, private, registry, 1)));
    assert!(is_signature_error(unrevoke_credential(&without, def, private, registry, 1)));
    assert!(is_signature_error(update_revocation_registry(
        &without,
        def,
        private,
        registry,
        indexes(&[1]),
        indexes(&[]),
    )));
}

// ---- deltas ----

#[test]
fn deltas_of_steps_in_a_row_merge() {
    let cred_def = cred_def(true);
    let made = new_registry(&cred_def, IssuanceType::ISSUANCE_ON_DEMAND);
    let step = |registry: &RevocationRegistry, issued: &[u32], revoked: &[u32]| {
        update_revocation_registry(
            &cred_def,
            &made.definition,
            &made.private,
            registry,
            indexes(issued),
            indexes(revoked),
        )
        .unwrap()
    };
    let (first, first_delta) = step(&made.registry, &[1, 2, 3], &[]);
    let (second, second_delta) = step(&first, &[4], &[2]);
    let (_, third_delta) = step(&second, &[], &[3]);

    let merged = merge_revocation_registry_deltas(&first_delta, &second_delta).unwrap();
    assert_eq!(told(&merged), (vec![1, 3, 4], vec![], true));

    let start = merge_revocation_registry_deltas(&made.delta, &merged).unwrap();
    assert_eq!(told(&start), (vec![1, 3, 4], vec![], false));

    let left = merge_revocation_registry_deltas(&merged, &third_delta).unwrap();
    let right = merge_revocation_registry_deltas(&second_delta, &third_delta).unwrap();
    let right = merge_revocation_registry_deltas(&first_delta, &right).unwrap();
    assert_eq!(told(&left), (vec![1, 4], vec![], true));
    assert_eq!(delta_value(&left), delta_value(&right));
}

#[test]
fn deltas_apart_do_not_merge() {
    let cred_def = cred_def(true);
    let made = new_registry(&cred_def, IssuanceType::ISSUANCE_ON_DEMAND);
    let (_, delta) =
        unrevoke_credential(&cred_def, &made.definition, &made.private, &made.registry, 1).unwrap();
    assert!(is_signature_error(merge_revocation_registry_deltas(&delta, &delta)));
    assert!(is_signature_error(merge_revocation_registry_deltas(&delta, &made.delta)));
    assert!(is_signature_error(merge_revocation_registry_deltas(&made.delta, &made.delta)));
    assert!(merge_revocation_registry_deltas(&made.delta, &delta).is_ok());
}

#[test]
fn merging_moves_twice_depends_on_the_order() {
    let cred_def = cred_def(true);
    let made = new_registry(&cred_def, IssuanceType::ISSUANCE_ON_DEMAND);
    let (def, private) = (&made.definition, &made.private);
    let (one, first) = unrevoke_credential(&cred_def, def, private, &made.registry, 1).unwrap();
    let (two, second) = unrevoke_credential(&cred_def, def, private, &one, 1).unwrap();
    let (_, third) = revoke_credential(&cred_def, def, private, &two, 1).unwrap();
    let left = merge_revocation_registry_deltas(&first, &second).unwrap();
    let left = merge_revocation_registry_deltas(&left, &third).unwrap();
    let right = merge_revocation_registry_deltas(&second, &third).unwrap();
    let right = merge_revocation_registry_deltas(&first, &right).unwrap();
    assert_eq!(told(&left), (vec![], vec![], true));
    assert_eq!(told(&right), (vec![1], vec![], true));
}

#[test]
fn merged_deltas_keep_indexes_apart() {
    let cred_def = cred_def(true);
    let made = new_registry(&cred_def, IssuanceType::ISSUANCE_ON_DEMAND);
    let (def, private) = (&made.definition, &made.private);
    let (one, first) = revoke_credential(&cred_def, def, private, &made.registry, 1).unwrap();
    let (_, second) = update_revocation_registry(
        &cred_def,
        def,
        private,
        &one,
        indexes(&[1, 2]),
        indexes(&[3]),
    )
    .unwrap();
    let merged = merge_revocation_registry_deltas(&first, &second).unwrap();
    assert_eq!(told(&merged), (vec![2], vec![3], true));
}

// ---- offers ----

#[test]
fn offer_is_of_the_definition() {
    let cred_def = cred_def(false);
    let offer = offer(&cred_def);
    assert_eq!(offer.schema_id.0, "NcYxiDXkpYi6ov5FcYDi1e:2:gvt:1.0");
    assert_eq!(offer.cred_def_id.0, "NcYxiDXkpYi6ov5FcYDi1e:3:CL:1:tag");
    assert_eq!(offer.key_correctness_proof, key_proof().value);
    assert_eq!(offer.method_name, None);
}

#[test]
fn offer_has_the_nonce_that_is_given() {
    let nonce = cl::Nonce::from_dec("123456789").unwrap();
    let schema_id = SchemaId("schema".to_string());
    let offer =
        credential_offer_from_parts(&schema_id, &cred_def(false), key_proof().value, nonce);
    assert_eq!(offer.nonce, cl::Nonce::from_dec("123456789").unwrap());
}

#[test]
fn offers_have_different_nonces() {
    let cred_def = cred_def(false);
    assert_ne!(offer(&cred_def).nonce, offer(&cred_def).nonce);
}

// ---- credentials ----

#[test]
fn credential_without_revocation() {
    let cred_def = cred_def(false);
    let offer = offer(&cred_def);
    let (request, signed, factors) = request(&cred_def, &offer);
    let private = cred_def_private();
    let (mut credential, registry, delta) =
        create_credential(&cred_def, &private, &offer, &request, values(), None).unwrap();
    assert_eq!(credential.schema_id, offer.schema_id);
    assert_eq!(credential.cred_def_id, offer.cred_def_id);
    assert_eq!(credential.rev_reg_id, None);
    assert_eq!(credential.values.entries().len(), 4);
    assert_eq!(credential.values.entries()[0].0, "Name");
    assert_eq!(credential.signature.extract_index(), None);
    assert!(credential.rev_reg.is_none() && credential.witness.is_none());
    assert!(registry.is_none() && delta.is_none());
    Prover::process_credential_signature(
        &mut credential.signature,
        &signed,
        &credential.signature_correctness_proof,
        &factors,
        &public_key(&cred_def),
        request.nonce.as_native(),
        None,
        None,
        None,
    )
    .unwrap();
}

#[test]
fn credential_for_an_index_on_demand() {
    let cred_def = cred_def(true);
    let made = new_registry(&cred_def, IssuanceType::ISSUANCE_ON_DEMAND);
    let offer = offer(&cred_def);
    let (request, signed, factors) = request(&cred_def, &offer);
    let config = CredentialRevocationConfig {
        reg_def: &made.definition,
        reg_def_private: &made.private,
        registry: &made.registry,
        registry_idx: 3,
    };
    let (mut credential, registry, delta) =
        create_credential(&cred_def, &cred_def_private(), &offer, &request, values(), Some(config))
            .unwrap();
    let (registry, delta) = (registry.unwrap(), delta.unwrap());
    assert_eq!(credential.signature.extract_index(), Some(3));
    assert_eq!(credential.rev_reg_id.as_ref(), Some(&definition_value(&made.definition).id));
    assert_eq!(credential.rev_reg.as_ref(), Some(registry_value(&registry)));
    assert_eq!(told(&delta), (vec![3], vec![], true));

    let issued =
        unrevoke_credential(&cred_def, &made.definition, &made.private, &made.registry, 3).unwrap();
    assert_eq!(registry_value(&registry), registry_value(&issued.0));
    assert_eq!(delta_value(&delta), delta_value(&issued.1));

    Prover::process_credential_signature(
        &mut credential.signature,
        &signed,
        &credential.signature_correctness_proof,
        &factors,
        &public_key(&cred_def),
        request.nonce.as_native(),
        Some(&definition_value(&made.definition).value.public_keys.accum_key),
        credential.rev_reg.as_ref(),
        credential.witness.as_ref(),
    )
    .unwrap();

    let (revoked, second) =
        revoke_credential(&cred_def, &made.definition, &made.private, &registry, 3).unwrap();
    assert_eq!(registry_value(&revoked), registry_value(&made.registry));
    let merged = merge_revocation_registry_deltas(&delta, &second).unwrap();
    assert_eq!(told(&merged), (vec![], vec![], true));
}

#[test]
fn credential_for_an_index_issued_by_default() {
    let cred_def = cred_def(true);
    let made = new_registry(&cred_def, IssuanceType::ISSUANCE_BY_DEFAULT);
    let offer = offer(&cred_def);
    let (request, signed, factors) = request(&cred_def, &offer);
    let config = CredentialRevocationConfig {
        reg_def: &made.definition,
        reg_def_private: &made.private,
        registry: &made.registry,
        registry_idx: 5,
    };
    let (mut credential, registry, delta) =
        create_credential(&cred_def, &cred_def_private(), &offer, &request, values(), Some(config))
            .unwrap();
    assert_eq!(credential.signature.extract_index(), Some(5));
    assert_eq!(registry_value(&registry.unwrap()), registry_value(&made.registry));
    assert!(delta.is_none());
    Prover::process_credential_signature(
        &mut credential.signature,
        &signed,
        &credential.signature_correctness_proof,
        &factors,
        &public_key(&cred_def),
        request.nonce.as_native(),
        Some(&definition_value(&made.definition).value.public_keys.accum_key),
        credential.rev_reg.as_ref(),
        credential.witness.as_ref(),
    )
    .unwrap();
}

#[test]
fn offer_with_a_method_takes_the_methods_off_the_registry_id() {
    let id = "creddef:sov:did:sov:NcYxiDXkpYi6ov5FcYDi1e:3:CL:1:tag";
    let cred_def = cred_def_with_id(id, true);
    let mut writer = CountingWriter { fails: false, written: vec![] };
    let (definition, private, registry, _) = create_revocation_registry(
        &did(QUALIFIED_DID),
        &cred_def,
        "reg",
        RegistryType::CL_ACCUM,
        IssuanceType::ISSUANCE_BY_DEFAULT,
        5,
        &mut writer,
    )
    .unwrap();
    for (method, named) in [
        (None, definition_value(&definition).id.0.as_str()),
        (
            Some("sov".to_string()),
            "NcYxiDXkpYi6ov5FcYDi1e:4:NcYxiDXkpYi6ov5FcYDi1e:3:CL:1:tag:CL_ACCUM:reg",
        ),
    ] {
        let mut offer = offer(&cred_def);
        offer.method_name = method;
        let (request, _, _) = request(&cred_def, &offer);
        let config = CredentialRevocationConfig {
            reg_def: &definition,
            reg_def_private: &private,
            registry: &registry,
            registry_idx: 1,
        };
        let (credential, _, _) = create_credential(
            &cred_def,
            &cred_def_private(),
            &offer,
            &request,
            values(),
            Some(config),
        )
        .unwrap();
        assert_eq!(credential.rev_reg_id, Some(RevocationRegistryId(named.to_string())));
    }
}

#[test]
fn index_outside_the_registry_is_refused() {
    let cred_def = cred_def(true);
    let made = new_registry(&cred_def, IssuanceType::ISSUANCE_BY_DEFAULT);
    let offer = offer(&cred_def);
    let (request, _, _) = request(&cred_def, &offer);
    for registry_idx in [0, 6, u32::MAX] {
        let config = CredentialRevocationConfig {
            reg_def: &made.definition,
            reg_def_private: &made.private,
            registry: &made.registry,
            registry_idx,
        };
        let private = cred_def_private();
        let res =
            create_credential(&cred_def, &private, &offer, &request, values(), Some(config));
        assert!(is_signature_error(res));
    }
}

#[test]
fn registry_with_a_definition_without_revocation_is_refused() {
    let with = cred_def(true);
    let made = new_registry(&with, IssuanceType::ISSUANCE_BY_DEFAULT);
    let without = cred_def(false);
    let offer = offer(&without);
    let (request, _, _) = request(&without, &offer);
    let config = CredentialRevocationConfig {
        reg_def: &made.definition,
        reg_def_private: &made.private,
        registry: &made.registry,
        registry_idx: 1,
    };
    let private = cred_def_private();
    let res = create_credential(&without, &private, &offer, &request, values(), Some(config));
    assert!(is_signature_error(res));
}

#[test]
fn values_that_do_not_agree_are_refused() {
    let cred_def = cred_def(false);
    let offer = offer(&cred_def);
    let (request, _, _) = request(&cred_def, &offer);
    let private = cred_def_private();
    let missing = values_with(&[("name", "1"), ("age", "2"), ("height", "3")]);
    let unknown =
        values_with(&[("name", "1"), ("age", "2"), ("height", "3"), ("sex", "4"), ("other", "5")]);
    let hidden = values_with(&[
        ("name", "1"),
        ("age", "2"),
        ("height", "3"),
        ("sex", "4"),
        ("master_secret", "5"),
    ]);
    let no_number = values_with(&[("name", "x"), ("age", "2"), ("height", "3"), ("sex", "4")]);
    for values in [missing, unknown, hidden, no_number] {
        let res = create_credential(&cred_def, &private, &offer, &request, values, None);
        assert!(is_signature_error(res));
    }
}

#[test]
fn request_for_another_nonce_is_refused() {
    let cred_def = cred_def(false);
    let (request, _, _) = request(&cred_def, &offer(&cred_def));
    let other = offer(&cred_def);
    let private = cred_def_private();
    let res = create_credential(&cred_def, &private, &other, &request, values(), None);
    assert!(is_signature_error(res));
}

#[test]
fn signatures_are_fresh() {
    let cred_def = cred_def(false);
    let offer = offer(&cred_def);
    let (request, _, _) = request(&cred_def, &offer);
    let private = cred_def_private();
    let issue =
        || create_credential(&cred_def, &private, &offer, &request, values(), None).unwrap().0;
    assert_ne!(json_of(&issue()), json_of(&issue()));
}

// ---- checks before signing ----

#[test]
fn checked_credential_is_issued() {
    let cred_def = cred_def(false);
    let offer = offer(&cred_def);
    let (request, _, _) = request(&cred_def, &offer);
    let res = create_credential_checked(
        &cred_def,
        &cred_def_private(),
        &offer,
        &request,
        values(),
        None,
    );
    assert!(res.unwrap().is_ok());
}

#[test]
fn checked_credential_reports_values_that_are_no_numbers() {
    let cred_def = cred_def(false);
    let offer = offer(&cred_def);
    let (request, _, _) = request(&cred_def, &offer);
    let no_number = values_with(&[("name", "x")]);
    let private = cred_def_private();
    assert_eq!(check_signing(&cred_def, &private, &request, &no_number, &None).unwrap(), true);
    let res = create_credential_checked(&cred_def, &private, &offer, &request, no_number, None);
    assert!(is_signature_error(res.unwrap()));
}

#[test]
fn checked_credential_is_not_issued_for_a_nul() {
    let cred_def = cred_def(false);
    let offer = offer(&cred_def);
    let (request, _, _) = request(&cred_def, &offer);
    let nul = values_with(&[("name", "1\u{0}")]);
    let private = cred_def_private();
    assert!(!check_signing(&cred_def, &private, &request, &nul, &None).unwrap());
    let res = create_credential_checked(&cred_def, &private, &offer, &request, nul, None);
    assert!(res.is_none());
}

#[test]
fn checked_credential_is_not_issued_for_a_proof_without_values() {
    let cred_def = cred_def(false);
    let offer = offer(&cred_def);
    let (mut request, _, _) = request(&cred_def, &offer);
    let mut json = serde_json::to_value(&request.blinded_ms_correctness_proof).unwrap();
    json["m_caps"].as_object_mut().unwrap().clear();
    request.blinded_ms_correctness_proof = serde_json::from_value(json).unwrap();
    let private = cred_def_private();
    assert_eq!(check_signing(&cred_def, &private, &request, &values(), &None).unwrap(), false);
    let res = create_credential_checked(&cred_def, &private, &offer, &request, values(), None);
    assert!(res.is_none());
}

#[test]
fn checked_credential_is_not_issued_for_a_registry_of_the_greatest_size() {
    let cred_def = cred_def(true);
    let mut made = new_registry(&cred_def, IssuanceType::ISSUANCE_BY_DEFAULT);
    let RevocationRegistryDefinition::RevocationRegistryDefinitionV1(v1) = &mut made.definition;
    v1.value.max_cred_num = u32::MAX;
    let offer = offer(&cred_def);
    let (request, _, _) = request(&cred_def, &offer);
    for (registry_idx, can) in [(1, false), (0, true)] {
        let config = CredentialRevocationConfig {
            reg_def: &made.definition,
            reg_def_private: &made.private,
            registry: &made.registry,
            registry_idx,
        };
        let told =
            check_signing(&cred_def, &cred_def_private(), &request, &values(), &Some(config));
        assert_eq!(told.unwrap(), can);
    }
}

#[test]
fn names_that_are_answered() {
    let list = |names: &[&str]| names.iter().map(|name| name.to_string()).collect::<Vec<String>>();
    let none = list(&[]);
    let secret = list(&["secret"]);
    let both = list(&["secret", "other"]);
    assert!(names_are_answered(&secret, &none, &secret, &none, &both));
    assert!(!names_are_answered(&secret, &none, &none, &none, &both));
    assert!(names_are_answered(&secret, &none, &none, &none, &none));
    assert!(names_are_answered(&secret, &both, &both, &both, &secret));
    assert!(!names_are_answered(&secret, &both, &secret, &both, &secret));
    assert!(!names_are_answered(&secret, &both, &both, &secret, &secret));
    assert!(names_are_answered(&secret, &both, &secret, &none, &none));
}

// ---- bounds ----

/// A text of a point with the counters at some of its words replaced.
fn with_counters(text: &str, places: &[usize], counter: &str) -> String {
    let mut words: Vec<&str> = text.split(' ').collect();
    for place in places {
        words[*place] = counter;
    }
    words.join(" ")
}

/// The registry with great counters of the second coordinate of its point.
fn unbounded(registry: &RevocationRegistry) -> RevocationRegistry {
    let mut json = serde_json::to_value(registry_value(registry)).unwrap();
    let text = with_counters(json["accum"].as_str().unwrap(), &[4, 6], "2000000000");
    json["accum"] = serde_json::Value::String(text);
    RevocationRegistry::RevocationRegistryV1(RevocationRegistryV1 {
        value: serde_json::from_value(json).unwrap(),
    })
}

#[test]
fn values_that_are_made_are_bounded() {
    let cred_def = cred_def(true);
    assert!(cred_def.check_bounds());
    for issuance_type in [IssuanceType::ISSUANCE_ON_DEMAND, IssuanceType::ISSUANCE_BY_DEFAULT] {
        let made = new_registry(&cred_def, issuance_type);
        assert!(made.registry.check_bounds());
        assert!(made.private.check_number());
        let (def, private) = (&made.definition, &made.private);
        let mut registry = made.registry;
        let mut delta = made.delta;
        for index in [1, 2, 3, 2, 1] {
            let (next, step) =
                revoke_credential_checked(&cred_def, def, private, &registry, index)
                    .unwrap()
                    .unwrap();
            assert!(next.check_bounds());
            delta = merge_revocation_registry_deltas_checked(&delta, &step).unwrap().unwrap();
            registry = next;
        }
        assert_eq!(told(&delta).1, vec![1, 2, 3]);
    }
}

#[test]
fn registry_that_is_not_bounded_is_not_moved() {
    let cred_def = cred_def(true);
    let made = new_registry(&cred_def, IssuanceType::ISSUANCE_BY_DEFAULT);
    let registry = unbounded(&made.registry);
    assert!(!registry.check_bounds());
    let (def, private) = (&made.definition, &made.private);
    assert!(revoke_credential_checked(&cred_def, def, private, &registry, 1).is_none());
    assert!(unrevoke_credential_checked(&cred_def, def, private, &registry, 1).is_none());
    let (none, one) = (indexes(&[]), indexes(&[1]));
    assert!(!check_move(&cred_def, def, private, &registry, &none, &one));
    let res = update_revocation_registry_checked(
        &cred_def,
        def,
        private,
        &registry,
        indexes(&[]),
        indexes(&[1]),
    );
    assert!(res.is_none());
    let res = update_revocation_registry_checked(
        &cred_def,
        def,
        private,
        &registry,
        indexes(&[]),
        indexes(&[]),
    );
    assert_eq!(told(&res.unwrap().unwrap().1), (vec![], vec![], true));
    let without = cred_def_with_id("id", false);
    let res = revoke_credential_checked(&without, def, private, &registry, 1);
    assert!(is_signature_error(res.unwrap()));
}

#[test]
fn indexes_without_a_tail_are_not_moved() {
    let cred_def = cred_def(true);
    let made = new_registry(&cred_def, IssuanceType::ISSUANCE_BY_DEFAULT);
    let (def, private, registry) = (&made.definition, &made.private, &made.registry);
    assert!(revoke_credential_checked(&cred_def, def, private, registry, 6).unwrap().is_ok());
    assert!(revoke_credential_checked(&cred_def, def, private, registry, 7).is_none());
    assert!(unrevoke_credential_checked(&cred_def, def, private, registry, 7).is_none());
    assert!(unrevoke_credential_checked(&cred_def, def, private, registry, 5).unwrap().is_ok());
    let moved = |issued: &[u32], revoked: &[u32]| {
        check_move(&cred_def, def, private, registry, &indexes(issued), &indexes(revoked))
    };
    assert!(moved(&[1, 2], &[3, 6]));
    assert!(!moved(&[1, 9], &[3]));
    assert!(!moved(&[1], &[3, 9]));
    assert!(moved(&[], &[]));
}

#[test]
fn deltas_that_are_not_bounded_are_not_merged() {
    let cred_def = cred_def(true);
    let made = new_registry(&cred_def, IssuanceType::ISSUANCE_BY_DEFAULT);
    let registry = unbounded(&made.registry);
    let (_, delta) = update_revocation_registry(
        &cred_def,
        &made.definition,
        &made.private,
        &registry,
        indexes(&[]),
        indexes(&[]),
    )
    .unwrap();
    assert!(merge_revocation_registry_deltas_checked(&made.delta, &delta).is_none());
    assert!(merge_revocation_registry_deltas_checked(&delta, &delta).is_none());
    let res = merge_revocation_registry_deltas_checked(&delta, &made.delta);
    assert!(is_signature_error(res.unwrap()));
}

#[test]
fn registry_is_not_made_with_a_key_that_is_not_bounded() {
    let mut json: serde_json::Value = serde_json::from_str(REVOCATION_KEY).unwrap();
    let text = with_counters(json["g_dash"].as_str().unwrap(), &[4, 6], "2000000000");
    json["g_dash"] = serde_json::Value::String(text);
    let mut cred_def = cred_def(true);
    let CredentialDefinition::CredentialDefinitionV1(v1) = &mut cred_def;
    v1.value.revocation = Some(serde_json::from_value(json).unwrap());
    assert!(!cred_def.check_bounds());
    let mut writer = CountingWriter { fails: false, written: vec![] };
    let res = create_revocation_registry_checked(
        &did(DID),
        &cred_def,
        "reg",
        RegistryType::CL_ACCUM,
        IssuanceType::ISSUANCE_BY_DEFAULT,
        5,
        &mut writer,
    );
    assert!(res.is_none());
    assert!(writer.written.is_empty());
}

#[test]
fn registry_is_not_made_with_too_many_tails() {
    let cred_def = cred_def(true);
    let mut writer = CountingWriter { fails: true, written: vec![] };
    let mut make = |did_text: &str, max_cred_num: u32| {
        create_revocation_registry_checked(
            &did(did_text),
            &cred_def,
            "reg",
            RegistryType::CL_ACCUM,
            IssuanceType::ISSUANCE_ON_DEMAND,
            max_cred_num,
            &mut writer,
        )
    };
    assert!(make(DID, 2147483648).is_none());
    assert!(matches!(make(DID, 2147483647), Some(Err(Error::Tails(_)))));
    assert!(matches!(make(QUALIFIED_DID, 2147483648), Some(Err(Error::Failure { .. }))));
}

#[test]
fn request_whose_point_is_not_bounded_is_not_signed() {
    let cred_def = cred_def(true);
    let made = new_registry(&cred_def, IssuanceType::ISSUANCE_BY_DEFAULT);
    let offer = offer(&cred_def);
    let (mut request, _, _) = request(&cred_def, &offer);
    let mut json = serde_json::to_value(&request.blinded_ms).unwrap();
    let text = with_counters(json["ur"].as_str().unwrap(), &[0, 2], "2000000000");
    json["ur"] = serde_json::Value::String(text);
    request.blinded_ms = serde_json::from_value(json).unwrap();
    let config = |registry_idx: u32| CredentialRevocationConfig {
        reg_def: &made.definition,
        reg_def_private: &made.private,
        registry: &made.registry,
        registry_idx,
    };
    let private = cred_def_private();
    assert_eq!(check_index_signing(&cred_def, &private, &request, &config(1)).unwrap(), false);
    assert_eq!(check_index_signing(&cred_def, &private, &request, &config(6)).unwrap(), true);
    let res = create_credential_checked(
        &cred_def,
        &private,
        &offer,
        &request,
        values(),
        Some(config(1)),
    );
    assert!(res.is_none());
    let res = create_credential_checked(&cred_def, &private, &offer, &request, values(), None);
    assert!(res.unwrap().is_ok());
}

#[test]
fn request_without_a_point_is_refused() {
    let cred_def = cred_def(true);
    let made = new_registry(&cred_def, IssuanceType::ISSUANCE_BY_DEFAULT);
    let offer = offer(&cred_def);
    let (mut request, _, _) = request(&cred_def, &offer);
    let mut json = serde_json::to_value(&request.blinded_ms).unwrap();
    json["ur"] = serde_json::Value::Null;
    request.blinded_ms = serde_json::from_value(json).unwrap();
    let config = CredentialRevocationConfig {
        reg_def: &made.definition,
        reg_def_private: &made.private,
        registry: &made.registry,
        registry_idx: 1,
    };
    let private = cred_def_private();
    let res =
        create_credential_checked(&cred_def, &private, &offer, &request, values(), Some(config));
    assert!(is_signature_error(res.unwrap()));
}

#[test]
fn index_whose_number_vanishes_is_not_signed_for() {
    let cred_def = cred_def(true);
    let mut made = new_registry(&cred_def, IssuanceType::ISSUANCE_BY_DEFAULT);
    let mut json = serde_json::to_value(&made.private.value).unwrap();
    json["gamma"] = serde_json::Value::String(
        "2523648240000001BA344D8000000007FF9F800000000010A10000000000000C".to_string(),
    );
    made.private.value = serde_json::from_value(json).unwrap();
    assert!(made.private.check_number());
    let offer = offer(&cred_def);
    let (request, _, _) = request(&cred_def, &offer);
    let private = cred_def_private();
    for (registry_idx, can) in [(1, false), (2, true), (3, false), (4, true)] {
        let config = CredentialRevocationConfig {
            reg_def: &made.definition,
            reg_def_private: &made.private,
            registry: &made.registry,
            registry_idx,
        };
        assert_eq!(check_index_signing(&cred_def, &private, &request, &config).unwrap(), can);
        let res = create_credential_checked(
            &cred_def,
            &private,
            &offer,
            &request,
            values(),
            Some(config),
        );
        assert_eq!(res.is_some(), can);
        assert!(res.map_or(true, |outcome| outcome.is_ok()));
    }
}

#[test]
fn checked_credential_for_an_index_is_issued() {
    let cred_def = cred_def(true);
    let made = new_registry(&cred_def, IssuanceType::ISSUANCE_ON_DEMAND);
    let offer = offer(&cred_def);
    let (request, _, _) = request(&cred_def, &offer);
    let config = CredentialRevocationConfig {
        reg_def: &made.definition,
        reg_def_private: &made.private,
        registry: &made.registry,
        registry_idx: 5,
    };
    let private = cred_def_private();
    let res =
        create_credential_checked(&cred_def, &private, &offer, &request, values(), Some(config));
    let (credential, registry, delta) = res.unwrap().unwrap();
    assert_eq!(credential.signature.extract_index(), Some(5));
    assert!(registry.unwrap().check_bounds());
    assert_eq!(told(&delta.unwrap()), (vec![5], vec![], true));
}

// ---- outcomes that are given ----

/// An error of the signature scheme.
fn source() -> cl::ClError {
    let delta = new_registry(&cred_def(true), IssuanceType::ISSUANCE_ON_DEMAND).delta;
    match merge_revocation_registry_deltas(&delta, &delta) {
        Err(Error::Signature(source)) => source,
        _ => panic!("the deltas merged"),
    }
}

#[test]
fn key_that_was_not_fetched_is_reported_as_input() {
    let cred_def = cred_def(true);
    let offer = offer(&cred_def);
    let (request, _, _) = request(&cred_def, &offer);
    let private = cred_def_private();
    for values in [values(), values_with(&[("name", "x")])] {
        let res = create_credential_with_fetched_key(
            Err(source()),
            &private,
            &offer,
            &request,
            values,
            None,
        );
        match res {
            Err(Error::Failure {
                kind: ErrorKind::Input,
                message: Some(message),
                cause: Some(Cause::Signature(_)),
            }) => assert_eq!(message, "Credential definition does not support revocation"),
            _ => panic!("another outcome"),
        }
    }
    let res = create_credential_with_fetched_key(
        Ok(public_key(&cred_def)),
        &private,
        &offer,
        &request,
        values(),
        None,
    );
    assert!(res.is_ok());
}

#[test]
fn failure_to_sign_is_handed_on() {
    let cred_def = cred_def(true);
    let made = new_registry(&cred_def, IssuanceType::ISSUANCE_BY_DEFAULT);
    let offer = offer(&cred_def);
    assert!(is_signature_error(credential_from_signing(&offer, values(), Err(source()))));
    let registry = registry_value(&made.registry).clone();
    let res = revocable_credential_from_signing(
        &offer,
        values(),
        &made.definition,
        registry,
        Err(source()),
    );
    assert!(is_signature_error(res));
}

#[test]
fn only_the_size_of_a_definition_matters_to_a_step() {
    let cred_def = cred_def(true);
    let made = new_registry(&cred_def, IssuanceType::ISSUANCE_BY_DEFAULT);
    let other = new_registry(&cred_def, IssuanceType::ISSUANCE_ON_DEMAND);
    let revoke = |definition: &RevocationRegistryDefinition| {
        revoke_credential(&cred_def, definition, &made.private, &made.registry, 2).unwrap()
    };
    let (first, second) = (revoke(&made.definition), revoke(&other.definition));
    assert_eq!(registry_value(&first.0), registry_value(&second.0));
    assert_eq!(delta_value(&first.1), delta_value(&second.1));
}

// ---- texts ----

/// A registry whose point is at infinity, with a number of the given digits beside.
fn registry_at_infinity(digits: &str) -> RevocationRegistry {
    let text = format!("1 0 1 0 1 {} 1 0 1 0 1 0", digits);
    let mut json = serde_json::Map::new();
    json.insert("accum".to_string(), serde_json::Value::String(text));
    RevocationRegistry::RevocationRegistryV1(RevocationRegistryV1 {
        value: serde_json::from_value(serde_json::Value::Object(json)).unwrap(),
    })
}

#[test]
fn registry_of_seventy_digits_is_tested() {
    let cred_def = cred_def(true);
    let made = new_registry(&cred_def, IssuanceType::ISSUANCE_BY_DEFAULT);
    let (def, private) = (&made.definition, &made.private);
    assert!(registry_at_infinity("1").check_bounds());
    for digits in ["F".repeat(70), format!("1{}", "0".repeat(69))] {
        let registry = registry_at_infinity(&digits);
        assert!(!registry.check_bounds());
        assert!(revoke_credential_checked(&cred_def, def, private, &registry, 1).is_none());
        let (_, delta) = update_revocation_registry(
            &cred_def,
            def,
            private,
            &registry,
            indexes(&[]),
            indexes(&[]),
        )
        .unwrap();
        assert!(merge_revocation_registry_deltas_checked(&made.delta, &delta).is_none());
    }
}

#[test]
fn registry_of_more_digits_is_taken_where_no_index_moves() {
    let cred_def = cred_def(true);
    let made = new_registry(&cred_def, IssuanceType::ISSUANCE_BY_DEFAULT);
    let (def, private) = (&made.definition, &made.private);
    let registry = registry_at_infinity(&format!("1{}", "0".repeat(70)));
    let res = update_revocation_registry_checked(
        &cred_def,
        def,
        private,
        &registry,
        indexes(&[]),
        indexes(&[]),
    );
    assert!(res.unwrap().is_ok());
    let without = cred_def_with_id("id", false);
    let res = revoke_credential_checked(&without, def, private, &registry, 1);
    assert!(is_signature_error(res.unwrap()));
}

#[test]
fn private_number_of_seventy_digits_is_tested() {
    let cred_def = cred_def(true);
    let mut made = new_registry(&cred_def, IssuanceType::ISSUANCE_BY_DEFAULT);
    let mut json = serde_json::to_value(&made.private.value).unwrap();
    json["gamma"] = serde_json::Value::String("F".repeat(70));
    made.private.value = serde_json::from_value(json).unwrap();
    assert!(made.private.check_number());
}

/// Texts that allow an index.
fn index_texts() -> IndexTexts {
    IndexTexts {
        point: Some("1 01 2 02 3 03".to_string()),
        secrets: Some(("0A".to_string(), "01".to_string())),
        number: "02".to_string(),
        registry: "1 01 1 02".to_string(),
        part: vec!["1 01".to_string(), "2 02".to_string()],
    }
}

const ORDER: &str = "2523648240000001BA344D8000000007FF9F800000000010A10000000000000D";

#[test]
fn texts_of_an_index_are_told_apart() {
    assert!(index_texts_allow(&index_texts(), 5, 1));
    assert!(!index_texts_allow(&index_texts(), u32::MAX, 1));
    let unbounded = || "0 01".to_string();
    let refused = [
        IndexTexts { point: Some(unbounded()), ..index_texts() },
        IndexTexts { registry: unbounded(), ..index_texts() },
        IndexTexts { part: vec!["1 01".to_string(), unbounded()], ..index_texts() },
        IndexTexts { number: ORDER.to_string(), ..index_texts() },
        IndexTexts { number: "x".to_string(), ..index_texts() },
        IndexTexts { secrets: Some((ORDER.to_string(), "01".to_string())), ..index_texts() },
        IndexTexts { secrets: Some(("01".to_string(), ORDER.to_string())), ..index_texts() },
        IndexTexts { secrets: Some(("01".to_string(), "1G".to_string())), ..index_texts() },
    ];
    for texts in refused {
        assert!(!index_texts_allow(&texts, 5, 1));
        assert!(index_texts_allow(&IndexTexts { point: None, ..texts }, 5, 1));
    }
    let texts = IndexTexts { point: Some(unbounded()), secrets: None, ..index_texts() };
    assert!(index_texts_allow(&texts, 5, 1));
}

#[test]
fn texts_of_an_index_whose_number_vanishes_are_refused() {
    let rest = "2523648240000001BA344D8000000007FF9F800000000010A100000000000005";
    let texts =
        IndexTexts { secrets: Some(("01".to_string(), rest.to_string())), ..index_texts() };
    for (index, can) in [(1, true), (2, true), (3, false), (4, true)] {
        assert_eq!(index_texts_allow(&texts, 5, index), can);
    }
}
