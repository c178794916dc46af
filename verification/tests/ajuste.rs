use regressao_linear::modelo::{ErroAjuste, RegressaoLinear};
use regressao_linear::razao::Razao;
use regressao_linear::somas::{dentro_dos_limites, somar, somar_produtos};

fn decimal(q: Razao) -> f64 {
    q.num as f64 / q.den as f64
}

fn serie_de_primos() -> (Vec<i64>, Vec<i64>) {
    (vec![0, 1, 2, 3, 4], vec![2, 3, 5, 7, 11])
}

#[test]
fn soma_de_amostras() {
    assert_eq!(somar(&[]), 0);
    assert_eq!(somar(&[2, 3, 5, 7, 11]), 28);
    assert_eq!(somar(&[-4, 4, -1]), -1);
}

#[test]
fn soma_de_produtos() {
    assert_eq!(somar_produtos(&[], &[]), 0);
    assert_eq!(somar_produtos(&[0, 1, 2, 3, 4], &[2, 3, 5, 7, 11]), 78);
    assert_eq!(somar_produtos(&[0, 1, 2, 3, 4], &[0, 1, 2, 3, 4]), 30);
    assert_eq!(somar_produtos(&[-3, 2], &[3, 2]), -5);
}

#[test]
fn limites_das_amostras() {
    assert!(dentro_dos_limites(&[]));
    assert!(dentro_dos_limites(&[1000, -1000, 0]));
    assert!(!dentro_dos_limites(&[1001]));
    assert!(!dentro_dos_limites(&[0, -1001, 0]));
    assert!(dentro_dos_limites(&vec![7; 1000]));
    assert!(!dentro_dos_limites(&vec![7; 1001]));
}

#[test]
fn ajuste_da_serie_de_primos() {
    let (x, y) = serie_de_primos();
    let m = RegressaoLinear::fit(&x, &y).unwrap();
    assert_eq!(
        m,
        RegressaoLinear { intercepto_num: 60, coeficiente_num: 110, denominador: 50 }
    );
    assert!(m.valido());
    assert!(m.dentro_dos_limites());
    assert!((decimal(m.intercepto()) - 1.2).abs() < 1e-12);
    assert!((decimal(m.coeficiente()) - 2.2).abs() < 1e-12);
}

#[test]
fn previsoes_da_serie_de_primos_crescem() {
    let (x, y) = serie_de_primos();
    let m = RegressaoLinear::fit(&x, &y).unwrap();
    let em_cinco = m.prever(5);
    let em_seis = m.prever(6);
    let em_sete = m.prever(7);
    assert_eq!(em_cinco, Razao { num: 610, den: 50 });
    assert_eq!(em_seis, Razao { num: 720, den: 50 });
    assert_eq!(em_sete, Razao { num: 830, den: 50 });
    assert!(decimal(em_cinco) < decimal(em_seis) && decimal(em_seis) < decimal(em_sete));
    assert!((decimal(em_cinco) - 12.2).abs() < 1e-12);
    assert!((decimal(em_seis) - 14.4).abs() < 1e-12);
    assert!((decimal(em_sete) - 16.6).abs() < 1e-12);
}

#[test]
fn medidas_da_serie_de_primos() {
    let (x, y) = serie_de_primos();
    let m = RegressaoLinear::fit(&x, &y).unwrap();
    let r2 = m.r2(&x, &y).unwrap();
    assert_eq!(r2, Razao { num: 605_000, den: 640_000 });
    assert!(0 < r2.num && r2.num < r2.den);
    assert!((decimal(r2) - 0.9453125).abs() < 1e-12);
    let mse = m.mse(&x, &y).unwrap();
    assert_eq!(mse, Razao { num: 7000, den: 12_500 });
    assert!(mse.num > 0 && mse.den > 0);
    assert!((decimal(mse) - 0.56).abs() < 1e-12);
}

#[test]
fn serie_constante() {
    let x = [0, 1, 2];
    let y = [5, 5, 5];
    let m = RegressaoLinear::fit(&x, &y).unwrap();
    assert_eq!(m, RegressaoLinear { intercepto_num: 30, coeficiente_num: 0, denominador: 6 });
    assert_eq!(m.mse(&x, &y), Some(Razao { num: 0, den: 108 }));
    assert_eq!(m.r2(&x, &y), None);
}

#[test]
fn entrada_vazia() {
    assert_eq!(RegressaoLinear::fit(&[], &[]), Err(ErroAjuste::EntradaInvalida));
}

#[test]
fn comprimentos_diferentes() {
    assert_eq!(RegressaoLinear::fit(&[0, 1, 2], &[1, 2]), Err(ErroAjuste::EntradaInvalida));
    assert_eq!(RegressaoLinear::fit(&[0, 1], &[1, 2, 3]), Err(ErroAjuste::EntradaInvalida));
    assert_eq!(RegressaoLinear::fit(&[], &[1]), Err(ErroAjuste::EntradaInvalida));
    assert_eq!(RegressaoLinear::fit(&[2, 2], &[]), Err(ErroAjuste::EntradaInvalida));
}

#[test]
fn x_sem_variacao() {
    assert_eq!(RegressaoLinear::fit(&[2, 2, 2], &[1, 5, 9]), Err(ErroAjuste::EntradaDegenerada));
    assert_eq!(RegressaoLinear::fit(&[7], &[3]), Err(ErroAjuste::EntradaDegenerada));
    assert_eq!(RegressaoLinear::fit(&[0, 0], &[0, 0]), Err(ErroAjuste::EntradaDegenerada));
    assert_eq!(
        RegressaoLinear::fit(&[-1000, -1000], &[1000, -1000]),
        Err(ErroAjuste::EntradaDegenerada)
    );
}

#[test]
fn dois_x_distintos_bastam() {
    let m = RegressaoLinear::fit(&[4, 4, 4, 5], &[9, -3, 0, 1]).unwrap();
    assert!(m.denominador > 0);
    assert!(m.valido());
    assert!(m.dentro_dos_limites());
    let m = RegressaoLinear::fit(&[-1000, 1000], &[1000, -1000]).unwrap();
    assert_eq!(
        m,
        RegressaoLinear { intercepto_num: 0, coeficiente_num: -4_000_000, denominador: 4_000_000 }
    );
}

#[test]
fn mensagens_de_erro() {
    assert_eq!(
        ErroAjuste::EntradaInvalida.mensagem(),
        "Vetores x e y devem ter o mesmo tamanho e não podem ser vazios"
    );
    assert_eq!(
        ErroAjuste::EntradaDegenerada.mensagem(),
        "Divisão por zero no cálculo dos coeficientes"
    );
}

#[test]
fn dados_sobre_uma_reta() {
    let x = [0, 1, 2, 3, 10];
    let y = [3, 5, 7, 9, 23];
    let m = RegressaoLinear::fit(&x, &y).unwrap();
    assert_eq!(m.coeficiente_num, 2 * m.denominador);
    assert_eq!(m.intercepto_num, 3 * m.denominador);
    assert!((decimal(m.coeficiente()) - 2.0).abs() < 1e-9);
    assert!((decimal(m.intercepto()) - 3.0).abs() < 1e-9);
    let mse = m.mse(&x, &y).unwrap();
    assert_eq!(mse.num, 0);
    assert!(mse.den > 0);
    let r2 = m.r2(&x, &y).unwrap();
    assert_eq!(r2.num, r2.den);
    assert!((decimal(r2) - 1.0).abs() < 1e-9);
}

#[test]
fn dados_sobre_uma_reta_de_inclinacao_fracionaria() {
    let x = [0, 2, 4, -6];
    let y = [1, 2, 3, -2];
    let m = RegressaoLinear::fit(&x, &y).unwrap();
    assert_eq!(2 * m.coeficiente_num, m.denominador);
    assert_eq!(m.intercepto_num, m.denominador);
    assert_eq!(m.mse(&x, &y).unwrap().num, 0);
    let r2 = m.r2(&x, &y).unwrap();
    assert_eq!(r2.num, r2.den);
}

#[test]
fn previsao_em_zero_e_passo() {
    let m = RegressaoLinear { intercepto_num: -7, coeficiente_num: 3, denominador: 4 };
    assert_eq!(m.prever(0), m.intercepto());
    assert_eq!(m.prever(0), Razao { num: -7, den: 4 });
    assert_eq!(m.coeficiente(), Razao { num: 3, den: 4 });
    for x in [-1000i64, -1, 0, 1, 41, 999_999] {
        let antes = m.prever(x);
        let depois = m.prever(x + 1);
        assert_eq!(antes.den, depois.den);
        assert_eq!(depois.num - antes.num, 3);
    }
    assert_eq!(m.prever(5), Razao { num: 8, den: 4 });
    assert_eq!(m.prever(2).num + m.prever(3).num, m.prever(5).num + m.intercepto().num);
}

#[test]
fn previsao_longe_das_amostras() {
    let m = RegressaoLinear {
        intercepto_num: i64::MIN,
        coeficiente_num: i64::MIN,
        denominador: 1,
    };
    let p = m.prever(i64::MIN);
    assert_eq!(p.num, (1i128 << 126) - (1i128 << 63));
    let p = m.prever(i64::MAX);
    assert_eq!(p.num, -(1i128 << 63) * ((1i128 << 63) - 1) - (1i128 << 63));
}

#[test]
fn medidas_de_uma_serie_vazia() {
    let m = RegressaoLinear { intercepto_num: 1, coeficiente_num: 1, denominador: 1 };
    assert_eq!(m.mse(&[], &[]), None);
    assert_eq!(m.r2(&[], &[]), None);
}

#[test]
fn medidas_de_um_modelo_qualquer() {
    // y = 1/2 + x/2 against the samples (0, 0), (1, 1), (2, 4)
    let m = RegressaoLinear { intercepto_num: 1, coeficiente_num: 1, denominador: 2 };
    let x = [0, 1, 2];
    let y = [0, 1, 4];
    // residuals times 2: -1, 0, 5
    assert_eq!(m.mse(&x, &y), Some(Razao { num: 26, den: 12 }));
    // spread of y: 3 * 17 - 25 = 26
    assert_eq!(m.r2(&x, &y), Some(Razao { num: 4 * 26 - 3 * 26, den: 4 * 26 }));
}

#[test]
fn determinacao_negativa_de_um_modelo_ruim() {
    let m = RegressaoLinear { intercepto_num: 100, coeficiente_num: -5, denominador: 1 };
    let x = [0, 1, 2];
    let y = [0, 1, 2];
    let r2 = m.r2(&x, &y).unwrap();
    assert!(r2.den > 0);
    assert!(r2.num < 0);
}

#[test]
fn modelo_bem_formado() {
    assert!(RegressaoLinear { intercepto_num: 0, coeficiente_num: 0, denominador: 1 }.valido());
    assert!(!RegressaoLinear { intercepto_num: 0, coeficiente_num: 0, denominador: 0 }.valido());
    assert!(!RegressaoLinear { intercepto_num: 0, coeficiente_num: 0, denominador: -3 }.valido());
    let grande = RegressaoLinear {
        intercepto_num: i64::MIN,
        coeficiente_num: i64::MAX,
        denominador: i64::MAX,
    };
    assert!(grande.valido());
}

#[test]
fn modelo_fora_dos_limites() {
    let unidade = RegressaoLinear { intercepto_num: 0, coeficiente_num: 0, denominador: 1 };
    assert!(unidade.dentro_dos_limites());
    assert!(!RegressaoLinear { denominador: 0, ..unidade }.dentro_dos_limites());
    assert!(!RegressaoLinear { denominador: -3, ..unidade }.dentro_dos_limites());
    let no_limite = RegressaoLinear {
        intercepto_num: -2_000_000_000_000_000,
        coeficiente_num: 2_000_000_000_000,
        denominador: 1_000_000_000_000,
    };
    assert!(no_limite.dentro_dos_limites());
    assert!(!RegressaoLinear { denominador: 1_000_000_000_001, ..no_limite }.dentro_dos_limites());
    assert!(
        !RegressaoLinear { coeficiente_num: 2_000_000_000_001, ..no_limite }.dentro_dos_limites()
    );
    assert!(!RegressaoLinear { intercepto_num: -2_000_000_000_000_001, ..no_limite }
        .dentro_dos_limites());
}

#[test]
fn medidas_no_limite() {
    let m = RegressaoLinear {
        intercepto_num: 2_000_000_000_000_000,
        coeficiente_num: 2_000_000_000_000,
        denominador: 1_000_000_000_000,
    };
    let x = vec![1000i64; 1000];
    let mut y = vec![-1000i64; 1000];
    y[0] = 1000;
    // residual of the 999 low samples: -10^15 - 2 * 10^15 - 2 * 10^15
    let baixo: i128 = 5_000_000_000_000_000;
    let alto: i128 = 3_000_000_000_000_000;
    let soma = 999 * baixo * baixo + alto * alto;
    let d2: i128 = 1_000_000_000_000_000_000_000_000;
    assert_eq!(m.mse(&x, &y), Some(Razao { num: soma, den: 1000 * d2 }));
    // spread of y: 1000 * 10^9 - 998000^2
    let espalhamento: i128 = 1_000_000_000_000 - 998_000 * 998_000;
    let r2 = m.r2(&x, &y).unwrap();
    assert_eq!(r2.den, d2 * espalhamento);
    assert_eq!(r2.num, d2 * espalhamento - 1000 * soma);
}

#[test]
fn ajuste_no_limite() {
    let mut x = vec![1000i64; 1000];
    let mut y = vec![1000i64; 1000];
    for i in 0..500 {
        x[i] = -1000;
        y[i] = -1000;
    }
    let m = RegressaoLinear::fit(&x, &y).unwrap();
    assert_eq!(m.denominador, 1_000_000_000_000);
    assert_eq!(m.coeficiente_num, 1_000_000_000_000);
    assert_eq!(m.intercepto_num, 0);
    assert!(m.dentro_dos_limites());
    assert_eq!(m.mse(&x, &y).unwrap().num, 0);
    let r2 = m.r2(&x, &y).unwrap();
    assert_eq!(r2.num, r2.den);
}

#[test]
fn ajuste_tem_o_menor_erro() {
    let (x, y) = serie_de_primos();
    let m = RegressaoLinear::fit(&x, &y).unwrap();
    let erro = m.mse(&x, &y).unwrap();
    let outros = [
        RegressaoLinear { intercepto_num: 1, coeficiente_num: 2, denominador: 1 },
        RegressaoLinear { intercepto_num: 6, coeficiente_num: 11, denominador: 5 },
        RegressaoLinear { intercepto_num: 61, coeficiente_num: 110, denominador: 50 },
        RegressaoLinear { intercepto_num: 60, coeficiente_num: 109, denominador: 50 },
        RegressaoLinear { intercepto_num: 28, coeficiente_num: 0, denominador: 5 },
    ];
    for o in outros {
        let e = o.mse(&x, &y).unwrap();
        assert!(erro.num * e.den <= e.num * erro.den);
    }
    let igual = RegressaoLinear { intercepto_num: 6, coeficiente_num: 11, denominador: 5 };
    let e = igual.mse(&x, &y).unwrap();
    assert_eq!(erro.num * e.den, e.num * erro.den);
}

#[test]
fn equacoes_normais_da_serie_de_primos() {
    let (x, y) = serie_de_primos();
    let m = RegressaoLinear::fit(&x, &y).unwrap();
    let n = x.len() as i128;
    let (a, s, d) = (m.intercepto_num as i128, m.coeficiente_num as i128, m.denominador as i128);
    assert_eq!(n * a + s * somar(&x), d * somar(&y));
    assert_eq!(a * somar(&x) + s * somar_produtos(&x, &x), d * somar_produtos(&x, &y));
}

#[test]
fn ordem_das_amostras_nao_importa() {
    let a = RegressaoLinear::fit(&[0, 1, 2, 3, 4], &[2, 3, 5, 7, 11]).unwrap();
    let b = RegressaoLinear::fit(&[4, 2, 0, 3, 1], &[11, 5, 2, 7, 3]).unwrap();
    assert_eq!(a, b);
}

#[test]
fn somas_de_amostras_grandes() {
    assert_eq!(somar(&[i64::MAX, i64::MAX, i64::MAX]), 3 * (i64::MAX as i128));
    assert_eq!(somar(&[i64::MIN, i64::MIN]), 2 * (i64::MIN as i128));
    assert_eq!(somar(&[i64::MAX, i64::MIN]), -1);
    assert_eq!(somar_produtos(&[i64::MIN], &[i64::MIN]), 1i128 << 126);
    assert_eq!(somar_produtos(&[i64::MIN], &[i64::MAX]), -(1i128 << 126) + (1i128 << 63));
    assert_eq!(somar_produtos(&[3_000_000_000, -2], &[3_000_000_000, 5]), 8_999_999_999_999_999_990);
}

#[test]
fn ajuste_sobre_anos() {
    let m = RegressaoLinear::fit(&[2019, 2020, 2021], &[1, 2, 3]).unwrap();
    assert_eq!(m.denominador, 6);
    assert_eq!(m.coeficiente_num, 6);
    assert_eq!(m.intercepto_num, -12_108);
    assert!(m.valido());
    assert_eq!(m.prever(2022), Razao { num: 24, den: 6 });
    assert_eq!(m.mse(&[2019, 2020, 2021], &[1, 2, 3]), Some(Razao { num: 0, den: 108 }));
    let r2 = m.r2(&[2019, 2020, 2021], &[1, 2, 3]).unwrap();
    assert_eq!(r2, Razao { num: 216, den: 216 });
}

#[test]
fn comprimentos_diferentes_com_qualquer_valor() {
    assert_eq!(RegressaoLinear::fit(&[5000, 1], &[1]), Err(ErroAjuste::EntradaInvalida));
    assert_eq!(RegressaoLinear::fit(&[], &[5000]), Err(ErroAjuste::EntradaInvalida));
    assert_eq!(
        RegressaoLinear::fit(&[i64::MAX, i64::MIN, i64::MAX], &[i64::MIN, i64::MIN]),
        Err(ErroAjuste::EntradaInvalida)
    );
    assert_eq!(RegressaoLinear::fit(&[2, 2], &[1]), Err(ErroAjuste::EntradaInvalida));
}

#[test]
fn x_grande_sem_variacao() {
    assert_eq!(RegressaoLinear::fit(&[5000, 5000], &[1, 2]), Err(ErroAjuste::EntradaDegenerada));
    assert_eq!(
        RegressaoLinear::fit(&[1_000_000_000; 4], &[7, -7, 7, -7]),
        Err(ErroAjuste::EntradaDegenerada)
    );
    // the numbers of a model need not fit where none is made
    assert_eq!(
        RegressaoLinear::fit(&[3_000_000_000; 3], &[i64::MAX, 0, i64::MIN]),
        Err(ErroAjuste::EntradaDegenerada)
    );
}

#[test]
fn ajuste_de_valores_grandes() {
    let x = [-1_000_000, 0, 1_000_000];
    let y = [-3_000_000, 1, 3_000_000];
    let m = RegressaoLinear::fit(&x, &y).unwrap();
    assert_eq!(m.denominador, 6_000_000_000_000);
    assert_eq!(m.coeficiente_num, 18_000_000_000_000);
    assert_eq!(m.intercepto_num, 2_000_000_000_000);
    assert!(m.valido());
    assert!(!m.dentro_dos_limites());
    // residuals times the denominator: -2 * 10^12, 4 * 10^12, -2 * 10^12
    let mse = m.mse(&x, &y).unwrap();
    assert_eq!(mse.num, 24_000_000_000_000_000_000_000_000);
    assert_eq!(mse.den, 3 * 36_000_000_000_000_000_000_000_000);
}

#[test]
fn medidas_de_um_modelo_grande() {
    let m = RegressaoLinear { intercepto_num: 0, coeficiente_num: 0, denominador: 1 << 40 };
    let x = [0, 0];
    let y = [1 << 20, -(1 << 20)];
    // residuals times the denominator: 2^60 and -2^60
    assert_eq!(m.mse(&x, &y), Some(Razao { num: 1 << 121, den: 1 << 81 }));
    // spread of y: 2 * 2^41 - 0
    assert_eq!(m.r2(&x, &y), Some(Razao { num: (1 << 122) - (1 << 122), den: 1 << 122 }));
}

#[test]
fn dados_sobre_uma_reta_longe_da_origem() {
    let x = [1_000_000, 1_000_001, 1_000_005];
    let y = [-2_999_993, -2_999_996, -3_000_008];
    let m = RegressaoLinear::fit(&x, &y).unwrap();
    assert_eq!(m.coeficiente_num, -3 * m.denominador);
    assert_eq!(m.intercepto_num, 7 * m.denominador);
    assert_eq!(m.mse(&x, &y).unwrap().num, 0);
    let r2 = m.r2(&x, &y).unwrap();
    assert_eq!(r2.num, r2.den);
    assert!(r2.den > 0);
}
